use vstd::prelude::*;

verus! {

use crate::num::{is_num, spec_is_num};
use crate::types::Position;
use crate::vars::error::{
    ErrorKind, ParserError, array_after_equal, array_closed, array_invalid_close, colon_position,
    colon_required, comma_position, comma_required, different_order, duplicate_error,
    invalid_syntax, item_name_not_set, multiple_char, struct_after_equal, struct_closed,
    struct_invalid_close, syntax_in_array, syntax_in_struct, to_parser_error,
};
use crate::vars::token::{TokV, Token, TokenV, Value};
use crate::vars::variable::{
    VarValV, Variable, VariableV, VariableValue, var_val_elems_v, var_val_elems_wf,
    var_val_fields_v, var_val_fields_wf, var_val_v, var_val_wf,
};

/// Classification of one leaf literal by its lexical shape: a quoted pair
/// makes a string or a char, a decimal number (optionally signed, with at
/// most one decimal point) makes a number kept as text, `true` and `false`
/// make a boolean; anything else is no literal. The error side is the
/// diagnostic code.
pub open spec fn spec_classify(t: Seq<char>) -> Result<VarValV, u32> {
    if t.len() >= 2 && t[0] == '"' && t[t.len() - 1] == '"' {
        Result::Ok(VarValV::Str(t.subrange(1, t.len() - 1)))
    } else if t.len() >= 2 && t[0] == '\'' && t[t.len() - 1] == '\'' {
        if t.len() == 3 {
            Result::Ok(VarValV::Chr(t[1]))
        } else {
            Result::Err(13u32)
        }
    } else if spec_is_num(t) || crate::num::spec_is_float(t) {
        Result::Ok(VarValV::Num(t))
    } else if t == "true"@ {
        Result::Ok(VarValV::Bool(true))
    } else if t == "false"@ {
        Result::Ok(VarValV::Bool(false))
    } else {
        Result::Err(6u32)
    }
}

/// The continuation index after a nested parse. The sub-parsers always
/// advance past at least the opening token and never past the end; this
/// guard states no more than that, so the grammar recursion below is
/// well-founded without appeal to the sub-parsers' behaviour.
pub open spec fn adv(i: int, j: int, n: int) -> int {
    let jj = if j > i {
        j
    } else {
        i + 1
    };
    if jj > n {
        n
    } else {
        jj
    }
}

/// The grammar of a bracketed array, from `i` just past the opener, with
/// the elements read so far and the comma flag: elements are leaf
/// literals, arrays or structs, a comma stands between any two, `]`
/// closes, comments pass, and end of input means the array never closed.
pub open spec fn spec_parse_array(
    toks: Seq<TokenV>,
    i: int,
    elements: Seq<VarValV>,
    comma_used: bool,
) -> Result<(VarValV, int), crate::vars::error::ParserErrorV>
    decreases toks.len() - i, 1int,
{
    if i < 0 || i >= toks.len() {
        Result::Err(
            crate::vars::error::sperr(
                ErrorKind::SyntaxError,
                8,
                "Array isn't closed"@,
                toks[i - 1].position,
            ),
        )
    } else {
        let t = toks[i];
        match t.value {
            TokV::LeftSquareBracket => match spec_parse_array(toks, i + 1, Seq::empty(), false) {
                Result::Ok(p) => if elements.len() > 0 && !comma_used {
                    Result::Err(
                        crate::vars::error::sperr(
                            ErrorKind::SyntaxError,
                            1,
                            "Comma is required"@,
                            t.position,
                        ),
                    )
                } else {
                    spec_parse_array(
                        toks,
                        adv(i, p.1, toks.len() as int),
                        elements.push(p.0),
                        false,
                    )
                },
                Result::Err(e) => Result::Err(e),
            },
            TokV::RightSquareBracket => Result::Ok((VarValV::Array(elements), i + 1)),
            TokV::Comma => if comma_used {
                Result::Err(
                    crate::vars::error::sperr(
                        ErrorKind::SyntaxError,
                        2,
                        "Comma position is invalid"@,
                        t.position,
                    ),
                )
            } else {
                spec_parse_array(toks, i + 1, elements, true)
            },
            TokV::LeftCurlyBracket => match spec_parse_struct(
                toks,
                i + 1,
                Seq::empty(),
                false,
                false,
                Option::None,
            ) {
                Result::Ok(p) => if elements.len() > 0 && !comma_used {
                    Result::Err(
                        crate::vars::error::sperr(
                            ErrorKind::SyntaxError,
                            1,
                            "Comma is required"@,
                            t.position,
                        ),
                    )
                } else {
                    spec_parse_array(
                        toks,
                        adv(i, p.1, toks.len() as int),
                        elements.push(p.0),
                        false,
                    )
                },
                Result::Err(e) => Result::Err(e),
            },
            TokV::Ident(text) => match spec_classify(text) {
                Result::Ok(v) => if elements.len() > 0 && !comma_used {
                    Result::Err(
                        crate::vars::error::sperr(
                            ErrorKind::SyntaxError,
                            1,
                            "Comma is required"@,
                            t.position,
                        ),
                    )
                } else {
                    spec_parse_array(toks, i + 1, elements.push(v), false)
                },
                Result::Err(code) => Result::Err(
                    crate::vars::error::spec_classify_err(code, t.position),
                ),
            },
            TokV::Comment(_) => spec_parse_array(toks, i + 1, elements, comma_used),
            _ => Result::Err(
                crate::vars::error::sperr(
                    ErrorKind::SyntaxError,
                    12,
                    "That syntax can't be used whithin a array"@,
                    t.position,
                ),
            ),
        }
    }
}

/// The grammar of a braced struct, from `i` just past the opener, with
/// the fields read so far and the punctuation state: `name : value`
/// entries with unique names, a comma between any two, `}` closes,
/// comments pass, and end of input means the struct never closed.
pub open spec fn spec_parse_struct(
    toks: Seq<TokenV>,
    i: int,
    fields: Seq<(Seq<char>, VarValV)>,
    comma_used: bool,
    colon_used: bool,
    element_name: Option<Seq<char>>,
) -> Result<(VarValV, int), crate::vars::error::ParserErrorV>
    decreases toks.len() - i, 1int,
{
    if i < 0 || i >= toks.len() {
        Result::Err(
            crate::vars::error::sperr(
                ErrorKind::SyntaxError,
                7,
                "Struct isn't closed"@,
                toks[i - 1].position,
            ),
        )
    } else {
        let t = toks[i];
        match t.value {
            TokV::RightCurlyBracket => Result::Ok((VarValV::Struct(fields), i + 1)),
            TokV::Comma => if comma_used {
                Result::Err(
                    crate::vars::error::sperr(
                        ErrorKind::SyntaxError,
                        2,
                        "Comma position is invalid"@,
                        t.position,
                    ),
                )
            } else {
                spec_parse_struct(toks, i + 1, fields, true, colon_used, element_name)
            },
            TokV::Colon => if colon_used {
                Result::Err(
                    crate::vars::error::sperr(
                        ErrorKind::SyntaxError,
                        4,
                        "Colon position is invalid"@,
                        t.position,
                    ),
                )
            } else {
                spec_parse_struct(toks, i + 1, fields, comma_used, true, element_name)
            },
            TokV::LeftSquareBracket => match spec_parse_array(toks, i + 1, Seq::empty(), false) {
                Result::Ok(p) => spec_struct_insert(
                    toks,
                    i,
                    fields,
                    comma_used,
                    colon_used,
                    element_name,
                    p.0,
                    p.1,
                ),
                Result::Err(e) => Result::Err(e),
            },
            TokV::LeftCurlyBracket => match spec_parse_struct(
                toks,
                i + 1,
                Seq::empty(),
                false,
                false,
                Option::None,
            ) {
                Result::Ok(p) => spec_struct_insert(
                    toks,
                    i,
                    fields,
                    comma_used,
                    colon_used,
                    element_name,
                    p.0,
                    p.1,
                ),
                Result::Err(e) => Result::Err(e),
            },
            TokV::Ident(text) => match element_name {
                Option::None => spec_parse_struct(
                    toks,
                    i + 1,
                    fields,
                    comma_used,
                    colon_used,
                    Option::Some(text),
                ),
                Option::Some(name) => if !colon_used {
                    Result::Err(
                        crate::vars::error::sperr(
                            ErrorKind::SyntaxError,
                            3,
                            "Colon is required"@,
                            t.position,
                        ),
                    )
                } else if fields.len() > 0 && !comma_used {
                    Result::Err(
                        crate::vars::error::sperr(
                            ErrorKind::SyntaxError,
                            1,
                            "Comma is required"@,
                            t.position,
                        ),
                    )
                } else {
                    match spec_classify(text) {
                        Result::Ok(v) => if crate::types::assoc_has(fields, name) {
                            Result::Err(
                                crate::vars::error::sperr(
                                    ErrorKind::DuplicateVars,
                                    18,
                                    name + " is duplicated"@,
                                    t.position,
                                ),
                            )
                        } else {
                            spec_parse_struct(
                                toks,
                                i + 1,
                                fields.push((name, v)),
                                false,
                                false,
                                Option::None,
                            )
                        },
                        Result::Err(code) => Result::Err(
                            crate::vars::error::spec_classify_err(code, t.position),
                        ),
                    }
                },
            },
            TokV::Comment(_) => spec_parse_struct(
                toks,
                i + 1,
                fields,
                comma_used,
                colon_used,
                element_name,
            ),
            _ => Result::Err(
                crate::vars::error::sperr(
                    ErrorKind::SyntaxError,
                    11,
                    "That syntax can't be used whithin a struct"@,
                    t.position,
                ),
            ),
        }
    }
}

/// What a nested value arriving at token `i` does to the struct state:
/// it needs a pending name, the colon, a comma after the first field and
/// a fresh name, and then stands as the field's value.
pub open spec fn spec_struct_insert(
    toks: Seq<TokenV>,
    i: int,
    fields: Seq<(Seq<char>, VarValV)>,
    comma_used: bool,
    colon_used: bool,
    element_name: Option<Seq<char>>,
    v: VarValV,
    next: int,
) -> Result<(VarValV, int), crate::vars::error::ParserErrorV>
    decreases toks.len() - i, 0int,
{
    if i < 0 || i >= toks.len() {
        Result::Err(
            crate::vars::error::sperr(
                ErrorKind::SyntaxError,
                7,
                "Struct isn't closed"@,
                toks[i - 1].position,
            ),
        )
    } else {
    let t = toks[i];
    match element_name {
        Option::Some(name) => if !colon_used {
            Result::Err(
                crate::vars::error::sperr(
                    ErrorKind::SyntaxError,
                    3,
                    "Colon is required"@,
                    t.position,
                ),
            )
        } else if fields.len() > 0 && !comma_used {
            Result::Err(
                crate::vars::error::sperr(
                    ErrorKind::SyntaxError,
                    1,
                    "Comma is required"@,
                    t.position,
                ),
            )
        } else if crate::types::assoc_has(fields, name) {
            Result::Err(
                crate::vars::error::sperr(
                    ErrorKind::DuplicateVars,
                    18,
                    name + " is duplicated"@,
                    t.position,
                ),
            )
        } else {
            spec_parse_struct(
                toks,
                adv(i, next, toks.len() as int),
                fields.push((name, v)),
                false,
                false,
                Option::None,
            )
        },
        Option::None => Result::Err(
            crate::vars::error::sperr(
                ErrorKind::SyntaxError,
                10,
                "Item name not set"@,
                t.position,
            ),
        ),
    }    }
}

/// The token models with comments removed: comments are filtered before
/// statement parsing begins.
pub open spec fn spec_drop_comments(ts: Seq<TokenV>) -> Seq<TokenV>
    decreases ts.len(),
{
    if ts.len() == 0 {
        Seq::empty()
    } else {
        let rest = spec_drop_comments(ts.drop_last());
        if ts.last().value is Comment {
            rest
        } else {
            rest.push(ts.last())
        }
    }
}

/// The grammar of the statement sequence over comment-free tokens: each
/// statement runs name, equal sign, value (a leaf literal, array or
/// struct), semicolon; any other arrival order is the statement-order
/// error; a trailing unfinished statement is dropped at end of input.
pub open spec fn spec_parse_stmts(
    toks: Seq<TokenV>,
    i: int,
    vars: Seq<VariableV>,
    equal_used: bool,
    name: Option<Seq<char>>,
    value: Option<VarValV>,
) -> Result<Seq<VariableV>, crate::vars::error::ParserErrorV>
    decreases toks.len() - i, 1int,
{
    if i < 0 || i >= toks.len() {
        Result::Ok(vars)
    } else {
        let t = toks[i];
        match t.value {
            TokV::LeftSquareBracket => if name is Some && value is None && equal_used {
                match spec_parse_array(toks, i + 1, Seq::empty(), false) {
                    Result::Ok(p) => spec_parse_stmts(
                        toks,
                        adv(i, p.1, toks.len() as int),
                        vars,
                        equal_used,
                        name,
                        Option::Some(p.0),
                    ),
                    Result::Err(e) => Result::Err(e),
                }
            } else {
                Result::Err(
                    crate::vars::error::sperr(
                        ErrorKind::SyntaxError,
                        9,
                        "Write arrays after the equal written"@,
                        t.position,
                    ),
                )
            },
            TokV::RightSquareBracket => Result::Err(
                crate::vars::error::sperr(
                    ErrorKind::SyntaxError,
                    14,
                    "Use ] only when closing an array"@,
                    t.position,
                ),
            ),
            TokV::LeftCurlyBracket | TokV::Struct => if name is Some && value is None
                && equal_used {
                match spec_parse_struct(toks, i + 1, Seq::empty(), false, false, Option::None) {
                    Result::Ok(p) => spec_parse_stmts(
                        toks,
                        adv(i, p.1, toks.len() as int),
                        vars,
                        equal_used,
                        name,
                        Option::Some(p.0),
                    ),
                    Result::Err(e) => Result::Err(e),
                }
            } else {
                Result::Err(
                    crate::vars::error::sperr(
                        ErrorKind::SyntaxError,
                        16,
                        "Write structs after the equal written"@,
                        t.position,
                    ),
                )
            },
            TokV::RightCurlyBracket => Result::Err(
                crate::vars::error::sperr(
                    ErrorKind::SyntaxError,
                    15,
                    "Use } only when closing an struct"@,
                    t.position,
                ),
            ),
            TokV::Colon => Result::Err(
                crate::vars::error::sperr(
                    ErrorKind::SyntaxError,
                    4,
                    "Colon position is invalid"@,
                    t.position,
                ),
            ),
            TokV::Comma => Result::Err(
                crate::vars::error::sperr(
                    ErrorKind::SyntaxError,
                    2,
                    "Comma position is invalid"@,
                    t.position,
                ),
            ),
            TokV::Equal => if !equal_used && name is Some && value is None {
                spec_parse_stmts(toks, i + 1, vars, true, name, value)
            } else {
                Result::Err(spec_order_err(t.position))
            },
            TokV::Semi => if equal_used && name is Some && value is Some {
                spec_parse_stmts(
                    toks,
                    i + 1,
                    vars.push(
                        VariableV {
                            name: name->0,
                            value: value->0,
                            position: t.position,
                        },
                    ),
                    false,
                    Option::None,
                    Option::None,
                )
            } else {
                Result::Err(spec_order_err(t.position))
            },
            TokV::Ident(text) => if name is Some && value is Some {
                Result::Err(spec_order_err(t.position))
            } else if name is None && !equal_used {
                spec_parse_stmts(toks, i + 1, vars, equal_used, Option::Some(text), value)
            } else if value is None && equal_used && name is Some {
                match spec_classify(text) {
                    Result::Ok(v) => spec_parse_stmts(
                        toks,
                        i + 1,
                        vars,
                        equal_used,
                        name,
                        Option::Some(v),
                    ),
                    Result::Err(code) => Result::Err(
                        crate::vars::error::spec_classify_err(code, t.position),
                    ),
                }
            } else {
                Result::Err(spec_order_err(t.position))
            },
            TokV::Comment(_) => spec_parse_stmts(toks, i + 1, vars, equal_used, name, value),
        }
    }
}

/// The statement-order diagnostic.
pub open spec fn spec_order_err(position: crate::types::PositionV)
    -> crate::vars::error::ParserErrorV {
    crate::vars::error::sperr(
        ErrorKind::SyntaxError,
        5,
        "The order must be variable name, equal sign, value, and semicolon"@,
        position,
    )
}

/// Whether the assignment at `j` repeats an earlier name.
pub open spec fn spec_dup_at(vs: Seq<VariableV>, j: int) -> bool {
    exists|k: int| 0 <= k < j && (#[trigger] vs[k]).name == vs[j].name
}

/// The first assignment repeating an earlier name, if any.
pub open spec fn spec_first_dup(vs: Seq<VariableV>, j: int) -> Option<int>
    decreases vs.len() - j,
{
    if j < 0 || j >= vs.len() {
        Option::None
    } else if spec_dup_at(vs, j) {
        Option::Some(j)
    } else {
        spec_first_dup(vs, j + 1)
    }
}

/// The diagnostic of the first repeated name.
pub open spec fn spec_dup_err(vs: Seq<VariableV>, j: int) -> crate::vars::error::ParserErrorV {
    crate::vars::error::sperr(
        ErrorKind::DuplicateVars,
        18,
        vs[j].name + " is duplicated"@,
        vs[j].position,
    )
}

/// The whole values parse: filter comments, run the statement machine from
/// the start, then refuse the first repeated name.
pub open spec fn spec_parse_full(ts: Seq<TokenV>) -> Result<
    Seq<VariableV>,
    crate::vars::error::ParserErrorV,
> {
    match spec_parse_stmts(
        spec_drop_comments(ts),
        0,
        Seq::empty(),
        false,
        Option::None,
        Option::None,
    ) {
        Result::Ok(vs) => match spec_first_dup(vs, 0) {
            Option::Some(j) => Result::Err(spec_dup_err(vs, j)),
            Option::None => Result::Ok(vs),
        },
        Result::Err(e) => Result::Err(e),
    }
}

/// The models of an assignment list.
pub open spec fn stmts_v(vs: Seq<Variable>) -> Seq<VariableV> {
    vs.map(|i: int, x: Variable| x@)
}

pub proof fn lemma_stmts_v_push(vs: Seq<Variable>, x: Variable)
    ensures
        stmts_v(vs.push(x)) == stmts_v(vs).push(x@),
{
    assert(stmts_v(vs.push(x)) =~= stmts_v(vs).push(x@));
}

/// Skipping distinct-named prefix entries does not change the first
/// repetition.
pub proof fn lemma_first_dup_from(vs: Seq<VariableV>, t: int, j: int)
    requires
        0 <= t <= j <= vs.len(),
        forall|a: int, b: int|
            #![trigger vs[a], vs[b]]
            0 <= a < b < j ==> vs[a].name != vs[b].name,
    ensures
        spec_first_dup(vs, t) == spec_first_dup(vs, j),
    decreases j - t,
{
    if t < j {
        assert(!spec_dup_at(vs, t));
        lemma_first_dup_from(vs, t + 1, j);
    }
}

/// A positioned diagnostic of the values parser, re-exported shape.
pub ghost enum ParsedIdentV {
    Name(Seq<char>),
    Value(VarValV),
}

/// What `parse_ident` decided an identifier token stands for.
#[derive(Debug)]
pub enum ParsedIdent {
    Name(String),
    Value(VariableValue),
}

impl View for ParsedIdent {
    type V = ParsedIdentV;

    open spec fn view(&self) -> ParsedIdentV {
        match self {
            ParsedIdent::Name(s) => ParsedIdentV::Name(s@),
            ParsedIdent::Value(v) => ParsedIdentV::Value(v@),
        }
    }
}

/// The statement under construction: its name and value, once seen.
pub struct Var {
    pub name: Option<String>,
    pub value: Option<VariableValue>,
}

/// The values parser over a lexed token stream.
pub struct Parser {
    pub tokens: Vec<Token>,
}

/// Pairwise-distinct assignment names.
pub open spec fn distinct_names(vs: Seq<Variable>) -> bool {
    forall|i: int, j: int| 0 <= i < j < vs.len() ==> vs[i].name@ != vs[j].name@
}

/// Every assignment value has unique struct keys at every nesting level.
pub open spec fn all_values_wf(vs: Seq<Variable>) -> bool {
    forall|i: int| 0 <= i < vs.len() ==> var_val_wf(#[trigger] vs[i].value@)
}

/// How many statement terminators a token sequence holds.
pub open spec fn count_semis(ts: Seq<Token>) -> int
    decreases ts.len(),
{
    if ts.len() == 0 {
        0
    } else {
        count_semis(ts.drop_last()) + if ts.last().value is Semi {
            1int
        } else {
            0int
        }
    }
}

pub proof fn lemma_count_semis_snoc(ts: Seq<Token>, t: Token)
    ensures
        count_semis(ts.push(t)) == count_semis(ts) + if t.value is Semi {
            1int
        } else {
            0int
        },
{
    assert(ts.push(t).drop_last() =~= ts);
    assert(ts.push(t).last() == t);
}

/// The same count, over token models.
pub open spec fn count_semis_v(ts: Seq<TokenV>) -> int
    decreases ts.len(),
{
    if ts.len() == 0 {
        0
    } else {
        count_semis_v(ts.drop_last()) + if ts.last().value is Semi {
            1int
        } else {
            0int
        }
    }
}

pub proof fn lemma_count_semis_view(ts: Seq<Token>)
    ensures
        count_semis(ts) == count_semis_v(crate::vars::lexer::toks_v(ts)),
    decreases ts.len(),
{
    if ts.len() > 0 {
        lemma_count_semis_view(ts.drop_last());
        assert(crate::vars::lexer::toks_v(ts).drop_last() =~= crate::vars::lexer::toks_v(
            ts.drop_last(),
        ));
        assert(crate::vars::lexer::toks_v(ts).last() == ts.last()@);
    }
}

/// A range without terminators adds nothing to the count.
pub proof fn lemma_count_semis_same(ts: Seq<Token>, a: int, b: int)
    requires
        0 <= a <= b <= ts.len(),
        forall|k: int| a <= k < b ==> !((#[trigger] ts[k]).value is Semi),
    ensures
        count_semis(ts.take(b)) == count_semis(ts.take(a)),
    decreases b - a,
{
    if a < b {
        lemma_count_semis_same(ts, a, b - 1);
        assert(ts.take(b) =~= ts.take(b - 1).push(ts[b - 1]));
        lemma_count_semis_snoc(ts.take(b - 1), ts[b - 1]);
    }
}

impl Parser {
    pub fn new(tokens: Vec<Token>) -> (r: Parser)
        ensures
            r.tokens@ == tokens@,
    {
        Parser { tokens }
    }

    /// Classifies a leaf literal, exactly as `spec_classify` says; an error
    /// is the model diagnostic at `position`.
    pub fn parse_value(&self, value: &String, position: &Position) -> (r: Result<
        VariableValue,
        ParserError,
    >)
        ensures
            match r {
                Result::Ok(v) => spec_classify(value@) == Result::<VarValV, u32>::Ok(v@),
                Result::Err(e) => spec_classify(value@) == Result::<VarValV, u32>::Err(e.code)
                    && e@ == crate::vars::error::spec_classify_err(e.code, position@),
            },
    {
        let s = value.as_str();
        let n = s.unicode_len();
        if n >= 2 && s.get_char(0) == '"' && s.get_char(n - 1) == '"' {
            let inner = s.substring_char(1, n - 1).to_owned();
            Ok(VariableValue::String(inner))
        } else if n >= 2 && s.get_char(0) == '\'' && s.get_char(n - 1) == '\'' {
            if n == 3 {
                Ok(VariableValue::Char(s.get_char(1)))
            } else {
                Err(to_parser_error(multiple_char(), position.dup()))
            }
        } else if is_num(value.clone()) || crate::num::is_float_literal(s) {
            Ok(VariableValue::Number(value.clone()))
        } else if *value == String::from_str("true") {
            Ok(VariableValue::Bool(true))
        } else if *value == String::from_str("false") {
            Ok(VariableValue::Bool(false))
        } else {
            Err(to_parser_error(crate::vars::error::invalid_type(), position.dup()))
        }
    }

    /// Decides whether an identifier token is the statement's name (before
    /// the equal sign, when no name is pending) or its value (after the
    /// equal sign); any other arrival order is a syntax error.
    pub fn parse_ident(&self, value: &String, var: &Var, position: &Position, equal_used: bool)
        -> (r: Result<ParsedIdent, ParserError>)
        ensures
            ({
                let nm_state = var.name is None && !equal_used;
                let val_state = var.name is Some && var.value is None && equal_used;
                match r {
                    Result::Ok(p) => match p@ {
                        ParsedIdentV::Name(nm) => nm == value@ && nm_state,
                        ParsedIdentV::Value(v) => val_state && spec_classify(value@)
                            == Result::<VarValV, u32>::Ok(v),
                    },
                    Result::Err(e) => !nm_state && e.position@ == position@ && (if val_state {
                        spec_classify(value@) == Result::<VarValV, u32>::Err(e.code) && e@
                            == crate::vars::error::spec_classify_err(e.code, position@)
                    } else {
                        e@ == spec_order_err(position@)
                    }),
                }
            }),
    {
        if var.name.is_some() && var.value.is_some() {
            return Err(to_parser_error(different_order(), position.dup()));
        }
        if var.name.is_none() && !equal_used {
            Ok(ParsedIdent::Name(value.clone()))
        } else if var.value.is_none() && equal_used && var.name.is_some() {
            match self.parse_value(value, position) {
                Ok(v) => Ok(ParsedIdent::Value(v)),
                Err(e) => Err(e),
            }
        } else {
            Err(to_parser_error(different_order(), position.dup()))
        }
    }

    /// Parses array elements from `i`, the index just past the opening
    /// bracket, through the matching closing bracket, exactly as
    /// `spec_parse_array` says; `Ok` returns the array and the index just
    /// past the closer.
    pub fn parse_array(&self, toks: &Vec<Token>, i: usize) -> (r: Result<
        (VariableValue, usize),
        ParserError,
    >)
        requires
            1 <= i <= toks@.len(),
        ensures
            match r {
                Result::Ok(p) => i < p.1 <= toks@.len() && p.0@ is Array && var_val_wf(p.0@) && (
                forall|k: int| i <= k < p.1 ==> !((#[trigger] toks@[k]).value is Semi)),
                Result::Err(_) => true,
            },
            ({
                let sp = spec_parse_array(
                    crate::vars::lexer::toks_v(toks@),
                    i as int,
                    Seq::empty(),
                    false,
                );
                match r {
                    Result::Ok(p) => sp == Result::<
                        (VarValV, int),
                        crate::vars::error::ParserErrorV,
                    >::Ok((p.0@, p.1 as int)),
                    Result::Err(e) => sp == Result::<
                        (VarValV, int),
                        crate::vars::error::ParserErrorV,
                    >::Err(e@),
                }
            }),
        decreases toks@.len() - i,
    {
        let ghost tv = crate::vars::lexer::toks_v(toks@);
        proof {
            assert(forall|k: int| 0 <= k < toks@.len() ==> #[trigger] tv[k] == toks@[k]@);
        }
        let mut elements: Vec<VariableValue> = Vec::new();
        let mut comma_used = false;
        let mut j = i;
        loop
            invariant
                1 <= i <= j <= toks@.len(),
                tv == crate::vars::lexer::toks_v(toks@),
                tv.len() == toks@.len(),
                forall|k: int| 0 <= k < toks@.len() ==> #[trigger] tv[k] == toks@[k]@,
                forall|k: int| i <= k < j ==> !((#[trigger] toks@[k]).value is Semi),
                forall|k: int|
                    0 <= k < elements@.len() ==> var_val_wf(#[trigger] elements@[k]@),
                spec_parse_array(tv, i as int, Seq::empty(), false) == spec_parse_array(
                    tv,
                    j as int,
                    var_val_elems_v(elements@),
                    comma_used,
                ),
            decreases toks@.len() - j,
        {
            let ghost els0 = var_val_elems_v(elements@);
            proof {
                crate::vars::variable::lemma_var_val_elems_v(elements@);
            }
            if j >= toks.len() {
                let e = to_parser_error(array_closed(), toks[j - 1].position.dup());
                proof {
                    assert(spec_parse_array(tv, j as int, els0, comma_used)
                        == Result::<(VarValV, int), crate::vars::error::ParserErrorV>::Err(e@));
                }
                return Err(e);
            }
            proof {
                assert(tv[j as int] == toks@[j as int]@);
            }
            match &toks[j].value {
                Value::LeftSquareBracket => {
                    match self.parse_array(toks, j + 1) {
                        Ok(p) => {
                            if elements.len() > 0 && !comma_used {
                                let e = to_parser_error(comma_required(), toks[j].position.dup());
                                proof {
                                    assert(spec_parse_array(tv, j as int, els0, comma_used)
                                        == Result::<
                                        (VarValV, int),
                                        crate::vars::error::ParserErrorV,
                                    >::Err(e@));
                                }
                                return Err(e);
                            }
                            let (v, j2) = p;
                            proof {
                                crate::vars::variable::lemma_var_val_elems_v_push(elements@, v);
                                assert(adv(j as int, j2 as int, tv.len() as int) == j2 as int);
                            }
                            elements.push(v);
                            comma_used = false;
                            j = j2;
                        },
                        Err(e) => {
                            proof {
                                assert(spec_parse_array(tv, j as int, els0, comma_used)
                                    == Result::<
                                    (VarValV, int),
                                    crate::vars::error::ParserErrorV,
                                >::Err(e@));
                            }
                            return Err(e);
                        },
                    }
                },
                Value::RightSquareBracket => {
                    proof {
                        assert forall|k: int|
                            0 <= k < var_val_elems_v(elements@).len() implies var_val_wf(
                            #[trigger] var_val_elems_v(elements@)[k],
                        ) by {
                            assert(var_val_elems_v(elements@)[k] == var_val_v(elements@[k]));
                            assert(var_val_wf(elements@[k]@));
                        };
                        crate::vars::variable::lemma_var_val_elems_wf_pointwise(
                            var_val_elems_v(elements@),
                        );
                    }
                    return Ok((VariableValue::Array(elements), j + 1));
                },
                Value::Comma => {
                    if comma_used {
                        let e = to_parser_error(comma_position(), toks[j].position.dup());
                        proof {
                            assert(spec_parse_array(tv, j as int, els0, comma_used) == Result::<
                                (VarValV, int),
                                crate::vars::error::ParserErrorV,
                            >::Err(e@));
                        }
                        return Err(e);
                    }
                    comma_used = true;
                    j = j + 1;
                },
                Value::LeftCurlyBracket => {
                    match self.parse_struct(toks, j + 1) {
                        Ok(p) => {
                            if elements.len() > 0 && !comma_used {
                                let e = to_parser_error(comma_required(), toks[j].position.dup());
                                proof {
                                    assert(spec_parse_array(tv, j as int, els0, comma_used)
                                        == Result::<
                                        (VarValV, int),
                                        crate::vars::error::ParserErrorV,
                                    >::Err(e@));
                                }
                                return Err(e);
                            }
                            let (v, j2) = p;
                            proof {
                                crate::vars::variable::lemma_var_val_elems_v_push(elements@, v);
                                assert(adv(j as int, j2 as int, tv.len() as int) == j2 as int);
                            }
                            elements.push(v);
                            comma_used = false;
                            j = j2;
                        },
                        Err(e) => {
                            proof {
                                assert(spec_parse_array(tv, j as int, els0, comma_used)
                                    == Result::<
                                    (VarValV, int),
                                    crate::vars::error::ParserErrorV,
                                >::Err(e@));
                            }
                            return Err(e);
                        },
                    }
                },
                Value::Ident(text) => {
                    match self.parse_value(text, &toks[j].position) {
                        Ok(v) => {
                            if elements.len() > 0 && !comma_used {
                                let e = to_parser_error(comma_required(), toks[j].position.dup());
                                proof {
                                    assert(spec_parse_array(tv, j as int, els0, comma_used)
                                        == Result::<
                                        (VarValV, int),
                                        crate::vars::error::ParserErrorV,
                                    >::Err(e@));
                                }
                                return Err(e);
                            }
                            proof {
                                crate::vars::variable::lemma_var_val_elems_v_push(elements@, v);
                            }
                            elements.push(v);
                            comma_used = false;
                            j = j + 1;
                        },
                        Err(e) => {
                            proof {
                                assert(spec_parse_array(tv, j as int, els0, comma_used)
                                    == Result::<
                                    (VarValV, int),
                                    crate::vars::error::ParserErrorV,
                                >::Err(e@));
                            }
                            return Err(e);
                        },
                    }
                },
                Value::Comment(_) => {
                    j = j + 1;
                },
                _ => {
                    let e = to_parser_error(syntax_in_array(), toks[j].position.dup());
                    proof {
                        assert(spec_parse_array(tv, j as int, els0, comma_used) == Result::<
                            (VarValV, int),
                            crate::vars::error::ParserErrorV,
                        >::Err(e@));
                    }
                    return Err(e);
                },
            }
        }
    }

    /// Parses struct fields from `i`, the index just past the opening
    /// brace, through the matching closing brace, exactly as
    /// `spec_parse_struct` says; `Ok` returns the struct (field names
    /// unique) and the index just past the closer.
    pub fn parse_struct(&self, toks: &Vec<Token>, i: usize) -> (r: Result<
        (VariableValue, usize),
        ParserError,
    >)
        requires
            1 <= i <= toks@.len(),
        ensures
            match r {
                Result::Ok(p) => i < p.1 <= toks@.len() && p.0@ is Struct && var_val_wf(p.0@) && (
                forall|k: int| i <= k < p.1 ==> !((#[trigger] toks@[k]).value is Semi)),
                Result::Err(_) => true,
            },
            ({
                let sp = spec_parse_struct(
                    crate::vars::lexer::toks_v(toks@),
                    i as int,
                    Seq::empty(),
                    false,
                    false,
                    Option::None,
                );
                match r {
                    Result::Ok(p) => sp == Result::<
                        (VarValV, int),
                        crate::vars::error::ParserErrorV,
                    >::Ok((p.0@, p.1 as int)),
                    Result::Err(e) => sp == Result::<
                        (VarValV, int),
                        crate::vars::error::ParserErrorV,
                    >::Err(e@),
                }
            }),
        decreases toks@.len() - i,
    {
        let ghost tv = crate::vars::lexer::toks_v(toks@);
        proof {
            assert(forall|k: int| 0 <= k < toks@.len() ==> #[trigger] tv[k] == toks@[k]@);
        }
        let mut fields: Vec<(String, VariableValue)> = Vec::new();
        let mut comma_used = false;
        let mut colon_used = false;
        let mut element_name: Option<String> = None;
        let mut j = i;
        loop
            invariant
                1 <= i <= j <= toks@.len(),
                tv == crate::vars::lexer::toks_v(toks@),
                tv.len() == toks@.len(),
                forall|k: int| 0 <= k < toks@.len() ==> #[trigger] tv[k] == toks@[k]@,
                forall|k: int| i <= k < j ==> !((#[trigger] toks@[k]).value is Semi),
                forall|a: int, b: int|
                    0 <= a < b < fields@.len() ==> fields@[a].0@ != fields@[b].0@,
                forall|k: int|
                    0 <= k < fields@.len() ==> var_val_wf(#[trigger] fields@[k].1@),
                spec_parse_struct(tv, i as int, Seq::empty(), false, false, Option::None)
                    == spec_parse_struct(
                    tv,
                    j as int,
                    var_val_fields_v(fields@),
                    comma_used,
                    colon_used,
                    match element_name {
                        Option::Some(nm) => Option::Some(nm@),
                        Option::None => Option::None,
                    },
                ),
            decreases toks@.len() - j,
        {
            let ghost fls0 = var_val_fields_v(fields@);
            let ghost nm0: Option<Seq<char>> = match &element_name {
                Option::Some(nm) => Option::Some(nm@),
                Option::None => Option::None,
            };
            proof {
                crate::vars::variable::lemma_var_val_fields_v(fields@);
            }
            if j >= toks.len() {
                let e = to_parser_error(struct_closed(), toks[j - 1].position.dup());
                proof {
                    assert(spec_parse_struct(tv, j as int, fls0, comma_used, colon_used, nm0)
                        == Result::<(VarValV, int), crate::vars::error::ParserErrorV>::Err(e@));
                }
                return Err(e);
            }
            proof {
                assert(tv[j as int] == toks@[j as int]@);
            }
            match &toks[j].value {
                Value::RightCurlyBracket => {
                    proof {
                        assert forall|k: int|
                            0 <= k < var_val_fields_v(fields@).len() implies var_val_wf(
                            #[trigger] var_val_fields_v(fields@)[k].1,
                        ) by {
                            assert(var_val_fields_v(fields@)[k] == (
                                fields@[k].0@,
                                var_val_v(fields@[k].1),
                            ));
                            assert(var_val_wf(fields@[k].1@));
                        };
                        assert forall|a: int, b: int|
                            0 <= a < b < var_val_fields_v(fields@).len() implies var_val_fields_v(
                            fields@,
                        )[a].0 != var_val_fields_v(fields@)[b].0 by {
                            assert(var_val_fields_v(fields@)[a] == (
                                fields@[a].0@,
                                var_val_v(fields@[a].1),
                            ));
                            assert(var_val_fields_v(fields@)[b] == (
                                fields@[b].0@,
                                var_val_v(fields@[b].1),
                            ));
                        };
                        crate::vars::variable::lemma_var_val_fields_wf_pointwise(
                            var_val_fields_v(fields@),
                        );
                    }
                    return Ok((VariableValue::Struct(fields), j + 1));
                },
                Value::Comma => {
                    if comma_used {
                        let e = to_parser_error(comma_position(), toks[j].position.dup());
                        proof {
                            assert(spec_parse_struct(
                                tv,
                                j as int,
                                fls0,
                                comma_used,
                                colon_used,
                                nm0,
                            ) == Result::<(VarValV, int), crate::vars::error::ParserErrorV>::Err(
                                e@,
                            ));
                        }
                        return Err(e);
                    }
                    comma_used = true;
                    j = j + 1;
                },
                Value::Colon => {
                    if colon_used {
                        let e = to_parser_error(colon_position(), toks[j].position.dup());
                        proof {
                            assert(spec_parse_struct(
                                tv,
                                j as int,
                                fls0,
                                comma_used,
                                colon_used,
                                nm0,
                            ) == Result::<(VarValV, int), crate::vars::error::ParserErrorV>::Err(
                                e@,
                            ));
                        }
                        return Err(e);
                    }
                    colon_used = true;
                    j = j + 1;
                },
                Value::LeftSquareBracket => {
                    match self.parse_array(toks, j + 1) {
                        Ok(p) => {
                            proof {
                                assert(spec_parse_struct(
                                    tv,
                                    j as int,
                                    fls0,
                                    comma_used,
                                    colon_used,
                                    nm0,
                                ) == spec_struct_insert(
                                    tv,
                                    j as int,
                                    fls0,
                                    comma_used,
                                    colon_used,
                                    nm0,
                                    p.0@,
                                    p.1 as int,
                                ));
                            }
                            match &element_name {
                                Some(name) => {
                                    if !colon_used {
                                        let e = to_parser_error(
                                            colon_required(),
                                            toks[j].position.dup(),
                                        );
                                        proof {
                                            assert(spec_parse_struct(
                                                tv,
                                                j as int,
                                                fls0,
                                                comma_used,
                                                colon_used,
                                                nm0,
                                            ) == Result::<
                                                (VarValV, int),
                                                crate::vars::error::ParserErrorV,
                                            >::Err(e@));
                                        }
                                        return Err(e);
                                    }
                                    if fields.len() > 0 && !comma_used {
                                        let e = to_parser_error(
                                            comma_required(),
                                            toks[j].position.dup(),
                                        );
                                        proof {
                                            assert(spec_parse_struct(
                                                tv,
                                                j as int,
                                                fls0,
                                                comma_used,
                                                colon_used,
                                                nm0,
                                            ) == Result::<
                                                (VarValV, int),
                                                crate::vars::error::ParserErrorV,
                                            >::Err(e@));
                                        }
                                        return Err(e);
                                    }
                                    if let Some(ix) = crate::types::assoc_find_idx(&fields, name)
                                    {
                                        let e0 = duplicate_error(name);
                                        let e = to_parser_error(e0, toks[j].position.dup());
                                        proof {
                                            assert(fields@[ix as int].0@ == name@);
                                            crate::types::lemma_assoc_get_some(
                                                fls0,
                                                name@,
                                                ix as int,
                                            );
                                            assert(spec_parse_struct(
                                                tv,
                                                j as int,
                                                fls0,
                                                comma_used,
                                                colon_used,
                                                nm0,
                                            ) == Result::<
                                                (VarValV, int),
                                                crate::vars::error::ParserErrorV,
                                            >::Err(e@));
                                        }
                                        return Err(e);
                                    }
                                    let (v, j2) = p;
                                    let key = name.clone();
                                    proof {
                                        crate::types::lemma_assoc_get_none(fls0, name@);
                                        crate::vars::variable::lemma_var_val_fields_v_push(
                                            fields@,
                                            (key, v),
                                        );
                                        assert(adv(j as int, j2 as int, tv.len() as int)
                                            == j2 as int);
                                    }
                                    fields.push((key, v));
                                    comma_used = false;
                                    colon_used = false;
                                    element_name = None;
                                    j = j2;
                                },
                                None => {
                                    let e = to_parser_error(
                                        item_name_not_set(),
                                        toks[j].position.dup(),
                                    );
                                    proof {
                                        assert(spec_parse_struct(
                                            tv,
                                            j as int,
                                            fls0,
                                            comma_used,
                                            colon_used,
                                            nm0,
                                        ) == Result::<
                                            (VarValV, int),
                                            crate::vars::error::ParserErrorV,
                                        >::Err(e@));
                                    }
                                    return Err(e);
                                },
                            }
                        },
                        Err(e) => {
                            proof {
                                assert(spec_parse_struct(
                                    tv,
                                    j as int,
                                    fls0,
                                    comma_used,
                                    colon_used,
                                    nm0,
                                ) == Result::<(VarValV, int), crate::vars::error::ParserErrorV>::Err(
                                    e@,
                                ));
                            }
                            return Err(e);
                        },
                    }
                },
                Value::LeftCurlyBracket => {
                    match self.parse_struct(toks, j + 1) {
                        Ok(p) => {
                            proof {
                                assert(spec_parse_struct(
                                    tv,
                                    j as int,
                                    fls0,
                                    comma_used,
                                    colon_used,
                                    nm0,
                                ) == spec_struct_insert(
                                    tv,
                                    j as int,
                                    fls0,
                                    comma_used,
                                    colon_used,
                                    nm0,
                                    p.0@,
                                    p.1 as int,
                                ));
                            }
                            match &element_name {
                                Some(name) => {
                                    if !colon_used {
                                        let e = to_parser_error(
                                            colon_required(),
                                            toks[j].position.dup(),
                                        );
                                        proof {
                                            assert(spec_parse_struct(
                                                tv,
                                                j as int,
                                                fls0,
                                                comma_used,
                                                colon_used,
                                                nm0,
                                            ) == Result::<
                                                (VarValV, int),
                                                crate::vars::error::ParserErrorV,
                                            >::Err(e@));
                                        }
                                        return Err(e);
                                    }
                                    if fields.len() > 0 && !comma_used {
                                        let e = to_parser_error(
                                            comma_required(),
                                            toks[j].position.dup(),
                                        );
                                        proof {
                                            assert(spec_parse_struct(
                                                tv,
                                                j as int,
                                                fls0,
                                                comma_used,
                                                colon_used,
                                                nm0,
                                            ) == Result::<
                                                (VarValV, int),
                                                crate::vars::error::ParserErrorV,
                                            >::Err(e@));
                                        }
                                        return Err(e);
                                    }
                                    if let Some(ix) = crate::types::assoc_find_idx(&fields, name)
                                    {
                                        let e0 = duplicate_error(name);
                                        let e = to_parser_error(e0, toks[j].position.dup());
                                        proof {
                                            assert(fields@[ix as int].0@ == name@);
                                            crate::types::lemma_assoc_get_some(
                                                fls0,
                                                name@,
                                                ix as int,
                                            );
                                            assert(spec_parse_struct(
                                                tv,
                                                j as int,
                                                fls0,
                                                comma_used,
                                                colon_used,
                                                nm0,
                                            ) == Result::<
                                                (VarValV, int),
                                                crate::vars::error::ParserErrorV,
                                            >::Err(e@));
                                        }
                                        return Err(e);
                                    }
                                    let (v, j2) = p;
                                    let key = name.clone();
                                    proof {
                                        crate::types::lemma_assoc_get_none(fls0, name@);
                                        crate::vars::variable::lemma_var_val_fields_v_push(
                                            fields@,
                                            (key, v),
                                        );
                                        assert(adv(j as int, j2 as int, tv.len() as int)
                                            == j2 as int);
                                    }
                                    fields.push((key, v));
                                    comma_used = false;
                                    colon_used = false;
                                    element_name = None;
                                    j = j2;
                                },
                                None => {
                                    let e = to_parser_error(
                                        item_name_not_set(),
                                        toks[j].position.dup(),
                                    );
                                    proof {
                                        assert(spec_parse_struct(
                                            tv,
                                            j as int,
                                            fls0,
                                            comma_used,
                                            colon_used,
                                            nm0,
                                        ) == Result::<
                                            (VarValV, int),
                                            crate::vars::error::ParserErrorV,
                                        >::Err(e@));
                                    }
                                    return Err(e);
                                },
                            }
                        },
                        Err(e) => {
                            proof {
                                assert(spec_parse_struct(
                                    tv,
                                    j as int,
                                    fls0,
                                    comma_used,
                                    colon_used,
                                    nm0,
                                ) == Result::<(VarValV, int), crate::vars::error::ParserErrorV>::Err(
                                    e@,
                                ));
                            }
                            return Err(e);
                        },
                    }
                },
                Value::Ident(text) => {
                    match &element_name {
                        None => {
                            element_name = Some(text.clone());
                            j = j + 1;
                        },
                        Some(name) => {
                            if !colon_used {
                                let e = to_parser_error(colon_required(), toks[j].position.dup());
                                proof {
                                    assert(spec_parse_struct(
                                        tv,
                                        j as int,
                                        fls0,
                                        comma_used,
                                        colon_used,
                                        nm0,
                                    ) == Result::<
                                        (VarValV, int),
                                        crate::vars::error::ParserErrorV,
                                    >::Err(e@));
                                }
                                return Err(e);
                            }
                            if fields.len() > 0 && !comma_used {
                                let e = to_parser_error(comma_required(), toks[j].position.dup());
                                proof {
                                    assert(spec_parse_struct(
                                        tv,
                                        j as int,
                                        fls0,
                                        comma_used,
                                        colon_used,
                                        nm0,
                                    ) == Result::<
                                        (VarValV, int),
                                        crate::vars::error::ParserErrorV,
                                    >::Err(e@));
                                }
                                return Err(e);
                            }
                            match self.parse_value(text, &toks[j].position) {
                                Ok(v) => {
                                    if let Some(ix) = crate::types::assoc_find_idx(&fields, name)
                                    {
                                        let e0 = duplicate_error(name);
                                        let e = to_parser_error(e0, toks[j].position.dup());
                                        proof {
                                            assert(fields@[ix as int].0@ == name@);
                                            crate::types::lemma_assoc_get_some(
                                                fls0,
                                                name@,
                                                ix as int,
                                            );
                                            assert(spec_parse_struct(
                                                tv,
                                                j as int,
                                                fls0,
                                                comma_used,
                                                colon_used,
                                                nm0,
                                            ) == Result::<
                                                (VarValV, int),
                                                crate::vars::error::ParserErrorV,
                                            >::Err(e@));
                                        }
                                        return Err(e);
                                    }
                                    let key = name.clone();
                                    proof {
                                        crate::types::lemma_assoc_get_none(fls0, name@);
                                        crate::vars::variable::lemma_var_val_fields_v_push(
                                            fields@,
                                            (key, v),
                                        );
                                    }
                                    fields.push((key, v));
                                    comma_used = false;
                                    colon_used = false;
                                    element_name = None;
                                    j = j + 1;
                                },
                                Err(e) => {
                                    proof {
                                        assert(spec_parse_struct(
                                            tv,
                                            j as int,
                                            fls0,
                                            comma_used,
                                            colon_used,
                                            nm0,
                                        ) == Result::<
                                            (VarValV, int),
                                            crate::vars::error::ParserErrorV,
                                        >::Err(e@));
                                    }
                                    return Err(e);
                                },
                            }
                        },
                    }
                },
                Value::Comment(_) => {
                    j = j + 1;
                },
                _ => {
                    let e = to_parser_error(syntax_in_struct(), toks[j].position.dup());
                    proof {
                        assert(spec_parse_struct(tv, j as int, fls0, comma_used, colon_used, nm0)
                            == Result::<(VarValV, int), crate::vars::error::ParserErrorV>::Err(
                            e@,
                        ));
                    }
                    return Err(e);
                },
            }
        }
    }

    /// Parses the whole filtered token stream, exactly as
    /// `spec_parse_full` over the token models says: a sequence of
    /// `name = value;` statements, then the check for repeated names.
    /// On success the assignment names are pairwise distinct, every value
    /// has unique struct keys throughout, and there is exactly one
    /// assignment per statement terminator in the token stream.
    pub fn parse(&self) -> (r: Result<Vec<Variable>, ParserError>)
        ensures
            match r {
                Result::Ok(vars) => distinct_names(vars@) && all_values_wf(vars@) && vars@.len()
                    == count_semis(self.tokens@),
                Result::Err(_) => true,
            },
            self.tokens@.len() == 0 ==> r is Ok,
            ({
                let sp = spec_parse_full(crate::vars::lexer::toks_v(self.tokens@));
                match r {
                    Result::Ok(vars) => sp == Result::<
                        Seq<VariableV>,
                        crate::vars::error::ParserErrorV,
                    >::Ok(stmts_v(vars@)),
                    Result::Err(e) => sp == Result::<
                        Seq<VariableV>,
                        crate::vars::error::ParserErrorV,
                    >::Err(e@),
                }
            }),
    {
        let ghost all_tv = crate::vars::lexer::toks_v(self.tokens@);
        let mut based: Vec<Token> = Vec::new();
        let mut idx: usize = 0;
        proof {
            assert(self.tokens@.take(0) =~= Seq::<Token>::empty());
            assert(crate::vars::lexer::toks_v(self.tokens@.take(0)) =~= Seq::<TokenV>::empty());
            assert(crate::vars::lexer::toks_v(based@) =~= Seq::<TokenV>::empty());
        }
        while idx < self.tokens.len()
            invariant
                0 <= idx <= self.tokens@.len(),
                based@.len() <= idx,
                count_semis(based@) == count_semis(self.tokens@.take(idx as int)),
                crate::vars::lexer::toks_v(based@) == spec_drop_comments(
                    crate::vars::lexer::toks_v(self.tokens@.take(idx as int)),
                ),
            decreases self.tokens@.len() - idx,
        {
            proof {
                assert(self.tokens@.take(idx + 1 as int) =~= self.tokens@.take(idx as int).push(
                    self.tokens@[idx as int],
                ));
                lemma_count_semis_snoc(self.tokens@.take(idx as int), self.tokens@[idx as int]);
                assert(crate::vars::lexer::toks_v(self.tokens@.take(idx + 1 as int))
                    =~= crate::vars::lexer::toks_v(self.tokens@.take(idx as int)).push(
                    self.tokens@[idx as int]@,
                ));
                assert(crate::vars::lexer::toks_v(self.tokens@.take(idx as int)).push(
                    self.tokens@[idx as int]@,
                ).drop_last() =~= crate::vars::lexer::toks_v(self.tokens@.take(idx as int)));
            }
            match &self.tokens[idx].value {
                Value::Comment(_) => {},
                _ => {
                    let ghost based0 = based@;
                    let t = self.tokens[idx].dup();
                    proof {
                        lemma_count_semis_snoc(based0, t);
                        assert(crate::vars::lexer::toks_v(based0.push(t))
                            =~= crate::vars::lexer::toks_v(based0).push(t@));
                    }
                    based.push(t);
                },
            }
            idx += 1;
        }
        proof {
            assert(self.tokens@.take(self.tokens@.len() as int) =~= self.tokens@);
        }
        let toks = based;
        let ghost ftv = crate::vars::lexer::toks_v(toks@);
        proof {
            assert(ftv == spec_drop_comments(all_tv));
            assert(forall|k: int| 0 <= k < toks@.len() ==> #[trigger] ftv[k] == toks@[k]@);
        }

        let mut vars: Vec<Variable> = Vec::new();
        let mut equal_used = false;
        let mut var = Var { name: None, value: None };
        let mut j: usize = 0;
        proof {
            assert(toks@.take(0) =~= Seq::<Token>::empty());
            assert(stmts_v(vars@) =~= Seq::<VariableV>::empty());
        }
        while j < toks.len()
            invariant
                0 <= j <= toks@.len(),
                toks@.len() <= self.tokens@.len(),
                count_semis(toks@) == count_semis(self.tokens@),
                vars@.len() == count_semis(toks@.take(j as int)),
                forall|k: int| 0 <= k < vars@.len() ==> var_val_wf(#[trigger] vars@[k].value@),
                match var.value {
                    Option::Some(v) => var_val_wf(v@),
                    Option::None => true,
                },
                var.name is None ==> var.value is None,
                all_tv == crate::vars::lexer::toks_v(self.tokens@),
                ftv == spec_drop_comments(all_tv),
                ftv == crate::vars::lexer::toks_v(toks@),
                ftv.len() == toks@.len(),
                forall|k: int| 0 <= k < toks@.len() ==> #[trigger] ftv[k] == toks@[k]@,
                spec_parse_stmts(ftv, 0, Seq::empty(), false, Option::None, Option::None)
                    == spec_parse_stmts(
                    ftv,
                    j as int,
                    stmts_v(vars@),
                    equal_used,
                    match var.name {
                        Option::Some(nm) => Option::Some(nm@),
                        Option::None => Option::None,
                    },
                    match var.value {
                        Option::Some(v) => Option::Some(v@),
                        Option::None => Option::None,
                    },
                ),
            decreases toks@.len() - j,
        {
            let ghost vs0 = stmts_v(vars@);
            let ghost nmv: Option<Seq<char>> = match &var.name {
                Option::Some(nm) => Option::Some(nm@),
                Option::None => Option::None,
            };
            let ghost vlv: Option<VarValV> = match &var.value {
                Option::Some(v) => Option::Some(v@),
                Option::None => Option::None,
            };
            proof {
                assert(toks@.take(j + 1 as int) =~= toks@.take(j as int).push(toks@[j as int]));
                lemma_count_semis_snoc(toks@.take(j as int), toks@[j as int]);
                assert(ftv[j as int] == toks@[j as int]@);
            }
            match &toks[j].value {
                Value::LeftSquareBracket => {
                    if var.name.is_some() && var.value.is_none() && equal_used {
                        match self.parse_array(&toks, j + 1) {
                            Ok(p) => {
                                let (v, j2) = p;
                                proof {
                                    lemma_count_semis_same(toks@, j + 1, j2 as int);
                                    assert(adv(j as int, j2 as int, ftv.len() as int)
                                        == j2 as int);
                                }
                                var.value = Some(v);
                                j = j2;
                            },
                            Err(e) => {
                                proof {
                                    assert(spec_parse_stmts(
                                        ftv,
                                        j as int,
                                        vs0,
                                        equal_used,
                                        nmv,
                                        vlv,
                                    ) == Result::<
                                        Seq<VariableV>,
                                        crate::vars::error::ParserErrorV,
                                    >::Err(e@));
                                }
                                return Err(e);
                            },
                        }
                    } else {
                        let e = to_parser_error(array_after_equal(), toks[j].position.dup());
                        proof {
                            assert(spec_parse_stmts(ftv, j as int, vs0, equal_used, nmv, vlv)
                                == Result::<
                                Seq<VariableV>,
                                crate::vars::error::ParserErrorV,
                            >::Err(e@));
                        }
                        return Err(e);
                    }
                },
                Value::RightSquareBracket => {
                    let e = to_parser_error(array_invalid_close(), toks[j].position.dup());
                    proof {
                        assert(spec_parse_stmts(ftv, j as int, vs0, equal_used, nmv, vlv)
                            == Result::<Seq<VariableV>, crate::vars::error::ParserErrorV>::Err(
                            e@,
                        ));
                    }
                    return Err(e);
                },
                Value::LeftCurlyBracket | Value::Struct => {
                    if var.name.is_some() && var.value.is_none() && equal_used {
                        match self.parse_struct(&toks, j + 1) {
                            Ok(p) => {
                                let (v, j2) = p;
                                proof {
                                    lemma_count_semis_same(toks@, j + 1, j2 as int);
                                    assert(adv(j as int, j2 as int, ftv.len() as int)
                                        == j2 as int);
                                }
                                var.value = Some(v);
                                j = j2;
                            },
                            Err(e) => {
                                proof {
                                    assert(spec_parse_stmts(
                                        ftv,
                                        j as int,
                                        vs0,
                                        equal_used,
                                        nmv,
                                        vlv,
                                    ) == Result::<
                                        Seq<VariableV>,
                                        crate::vars::error::ParserErrorV,
                                    >::Err(e@));
                                }
                                return Err(e);
                            },
                        }
                    } else {
                        let e = to_parser_error(struct_after_equal(), toks[j].position.dup());
                        proof {
                            assert(spec_parse_stmts(ftv, j as int, vs0, equal_used, nmv, vlv)
                                == Result::<
                                Seq<VariableV>,
                                crate::vars::error::ParserErrorV,
                            >::Err(e@));
                        }
                        return Err(e);
                    }
                },
                Value::RightCurlyBracket => {
                    let e = to_parser_error(struct_invalid_close(), toks[j].position.dup());
                    proof {
                        assert(spec_parse_stmts(ftv, j as int, vs0, equal_used, nmv, vlv)
                            == Result::<Seq<VariableV>, crate::vars::error::ParserErrorV>::Err(
                            e@,
                        ));
                    }
                    return Err(e);
                },
                Value::Colon => {
                    let e = to_parser_error(colon_position(), toks[j].position.dup());
                    proof {
                        assert(spec_parse_stmts(ftv, j as int, vs0, equal_used, nmv, vlv)
                            == Result::<Seq<VariableV>, crate::vars::error::ParserErrorV>::Err(
                            e@,
                        ));
                    }
                    return Err(e);
                },
                Value::Comma => {
                    let e = to_parser_error(comma_position(), toks[j].position.dup());
                    proof {
                        assert(spec_parse_stmts(ftv, j as int, vs0, equal_used, nmv, vlv)
                            == Result::<Seq<VariableV>, crate::vars::error::ParserErrorV>::Err(
                            e@,
                        ));
                    }
                    return Err(e);
                },
                Value::Equal => {
                    if !equal_used && var.name.is_some() && var.value.is_none() {
                        equal_used = true;
                        j = j + 1;
                    } else {
                        let e = to_parser_error(different_order(), toks[j].position.dup());
                        proof {
                            assert(spec_parse_stmts(ftv, j as int, vs0, equal_used, nmv, vlv)
                                == Result::<
                                Seq<VariableV>,
                                crate::vars::error::ParserErrorV,
                            >::Err(e@));
                        }
                        return Err(e);
                    }
                },
                Value::Semi => {
                    if equal_used && var.name.is_some() && var.value.is_some() {
                        let entry = match (&var.name, &var.value) {
                            (Some(name), Some(value)) => Variable {
                                name: name.clone(),
                                value: value.dup(),
                                position: toks[j].position.dup(),
                            },
                            _ => {
                                let e = to_parser_error(
                                    different_order(),
                                    toks[j].position.dup(),
                                );
                                return Err(e);
                            },
                        };
                        var = Var { name: None, value: None };
                        proof {
                            lemma_stmts_v_push(vars@, entry);
                        }
                        vars.push(entry);
                        equal_used = false;
                        j = j + 1;
                    } else {
                        let e = to_parser_error(different_order(), toks[j].position.dup());
                        proof {
                            assert(spec_parse_stmts(ftv, j as int, vs0, equal_used, nmv, vlv)
                                == Result::<
                                Seq<VariableV>,
                                crate::vars::error::ParserErrorV,
                            >::Err(e@));
                        }
                        return Err(e);
                    }
                },
                Value::Ident(text) => {
                    match self.parse_ident(text, &var, &toks[j].position, equal_used) {
                        Ok(ParsedIdent::Name(nm)) => {
                            var = Var { name: Some(nm), value: None };
                            j = j + 1;
                        },
                        Ok(ParsedIdent::Value(v)) => {
                            var.value = Some(v);
                            j = j + 1;
                        },
                        Err(e) => {
                            proof {
                                assert(spec_parse_stmts(ftv, j as int, vs0, equal_used, nmv, vlv)
                                    == Result::<
                                    Seq<VariableV>,
                                    crate::vars::error::ParserErrorV,
                                >::Err(e@));
                            }
                            return Err(e);
                        },
                    }
                },
                Value::Comment(_) => {
                    j = j + 1;
                },
            }
        }

        proof {
            assert(toks@.take(toks@.len() as int) =~= toks@);
        }
        match self.duplicate_check(&vars) {
            Some(e) => Err(e),
            None => Ok(vars),
        }
    }

    /// Scans the finished assignment list for a repeated name, exactly as
    /// `spec_first_dup` says; the first repetition is reported with its
    /// own position and name.
    pub fn duplicate_check(&self, vars: &Vec<Variable>) -> (r: Option<ParserError>)
        ensures
            match r {
                Option::None => distinct_names(vars@) && spec_first_dup(stmts_v(vars@), 0)
                    is None,
                Option::Some(e) => spec_first_dup(stmts_v(vars@), 0) is Some && e@
                    == spec_dup_err(stmts_v(vars@), spec_first_dup(stmts_v(vars@), 0)->0),
            },
    {
        let ghost sv = stmts_v(vars@);
        proof {
            assert(forall|k: int| 0 <= k < vars@.len() ==> #[trigger] sv[k] == vars@[k]@);
        }
        let n = vars.len();
        let mut j: usize = 1;
        while j < n
            invariant
                n == vars@.len(),
                sv == stmts_v(vars@),
                sv.len() == vars@.len(),
                forall|k: int| 0 <= k < vars@.len() ==> #[trigger] sv[k] == vars@[k]@,
                1 <= j || n == 0,
                j <= n || (n == 0 && j == 1),
                forall|a: int, b: int| 0 <= a < b < j && b < n ==> vars@[a].name@ != vars@[b].name@,
            decreases n - j,
        {
            let mut k: usize = 0;
            while k < j
                invariant
                    n == vars@.len(),
                    sv == stmts_v(vars@),
                    sv.len() == vars@.len(),
                    forall|a: int| 0 <= a < vars@.len() ==> #[trigger] sv[a] == vars@[a]@,
                    0 <= k <= j < n,
                    forall|a: int, b: int|
                        0 <= a < b < j && b < n ==> vars@[a].name@ != vars@[b].name@,
                    forall|a: int| 0 <= a < k ==> vars@[a].name@ != vars@[j as int].name@,
                decreases j - k,
            {
                if vars[k].name == vars[j].name {
                    let e0 = duplicate_error(&vars[j].name);
                    let e = to_parser_error(e0, vars[j].position.dup());
                    proof {
                        assert(sv[k as int].name == sv[j as int].name);
                        assert(spec_dup_at(sv, j as int));
                        assert(spec_first_dup(sv, j as int) == Option::Some(j as int));
                        assert(forall|a: int, b: int|
                            #![trigger sv[a], sv[b]]
                            0 <= a < b < j ==> sv[a].name != sv[b].name);
                        lemma_first_dup_from(sv, 0, j as int);
                        assert(e@ == spec_dup_err(sv, j as int));
                    }
                    return Some(e);
                }
                k += 1;
            }
            j += 1;
        }
        proof {
            if n > 0 {
                assert(forall|a: int, b: int|
                    #![trigger sv[a], sv[b]]
                    0 <= a < b < sv.len() ==> sv[a].name != sv[b].name);
                lemma_first_dup_from(sv, 0, sv.len() as int);
                assert(spec_first_dup(sv, sv.len() as int) is None);
            } else {
                assert(spec_first_dup(sv, 0) is None);
            }
        }
        None
    }
}

} // verus!
