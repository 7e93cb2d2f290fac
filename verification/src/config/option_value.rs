use vstd::prelude::*;

verus! {

broadcast use vstd::std_specs::vec::axiom_vec_index_decreases, vstd::std_specs::vec::axiom_vec_decreases_to_view, vstd::seq::axiom_seq_index_decreases, vstd::seq::axiom_seq_subrange_decreases;

use crate::config::error::{ErrorKind, ParserError, ParserErrorV, array_closed, colon_position,
    colon_required, comma_position, comma_required, csperr, invalid_elements, invalid_syntax,
    invalid_type, option_closed, struct_closed, template_to_error};
use crate::config::token::{CTokV, TokenV};
use crate::config::lexer::toks_v;
use crate::vars::parser::adv;
use crate::config::token::{Token, Value as TokValue};
use crate::config::value::{parse_value, spec_cfg_leaf};
use crate::types::{Position, Type, TypeV, Value, ValueV, assoc_get, lemma_assoc_get_none,
    lemma_assoc_get_some, lemma_type_fields_v, lemma_value_elems_v_push, lemma_value_fields_v_push,
    type_fields_v, type_v, value_elems_v, value_fields_v, value_v};

/// A raw fallback value from a `(default: …, actions: …)` clause: literal
/// text still unclassified, or a nested array or struct of such, or the
/// explicit `null`.
#[derive(Debug, PartialEq)]
pub enum ParsedValue {
    Null,
    Value(String),
    Array(Vec<ParsedValue>),
    Struct(Vec<(String, ParsedValue)>),
}

/// Mathematical model of a `ParsedValue`.
pub ghost enum ParsedValueV {
    Null,
    Value(Seq<char>),
    Array(Seq<ParsedValueV>),
    Struct(Seq<(Seq<char>, ParsedValueV)>),
}

pub open spec fn raw_v(v: ParsedValue) -> ParsedValueV
    decreases v,
{
    match v {
        ParsedValue::Null => ParsedValueV::Null,
        ParsedValue::Value(s) => ParsedValueV::Value(s@),
        ParsedValue::Array(vs) => ParsedValueV::Array(raw_elems_v(vs@)),
        ParsedValue::Struct(fields) => ParsedValueV::Struct(raw_fields_v(fields@)),
    }
}

pub open spec fn raw_elems_v(s: Seq<ParsedValue>) -> Seq<ParsedValueV>
    decreases s,
{
    if s.len() == 0 {
        Seq::empty()
    } else {
        seq![raw_v(s[0])] + raw_elems_v(s.drop_first())
    }
}

pub open spec fn raw_fields_v(s: Seq<(String, ParsedValue)>) -> Seq<(Seq<char>, ParsedValueV)>
    decreases s,
{
    if s.len() == 0 {
        Seq::empty()
    } else {
        seq![(s[0].0@, raw_v(s[0].1))] + raw_fields_v(s.drop_first())
    }
}

pub proof fn lemma_raw_elems_v(s: Seq<ParsedValue>)
    ensures
        raw_elems_v(s).len() == s.len(),
        forall|i: int| 0 <= i < s.len() ==> #[trigger] raw_elems_v(s)[i] == raw_v(s[i]),
    decreases s,
{
    if s.len() > 0 {
        lemma_raw_elems_v(s.drop_first());
    }
}

pub proof fn lemma_raw_fields_v(s: Seq<(String, ParsedValue)>)
    ensures
        raw_fields_v(s).len() == s.len(),
        forall|i: int|
            0 <= i < s.len() ==> #[trigger] raw_fields_v(s)[i] == (s[i].0@, raw_v(s[i].1)),
    decreases s,
{
    if s.len() > 0 {
        lemma_raw_fields_v(s.drop_first());
    }
}

pub proof fn lemma_raw_elems_v_push(s: Seq<ParsedValue>, x: ParsedValue)
    ensures
        raw_elems_v(s.push(x)) == raw_elems_v(s).push(raw_v(x)),
{
    lemma_raw_elems_v(s.push(x));
    lemma_raw_elems_v(s);
    assert(raw_elems_v(s.push(x)) =~= raw_elems_v(s).push(raw_v(x)));
}

pub proof fn lemma_raw_fields_v_push(s: Seq<(String, ParsedValue)>, x: (String, ParsedValue))
    ensures
        raw_fields_v(s.push(x)) == raw_fields_v(s).push((x.0@, raw_v(x.1))),
{
    lemma_raw_fields_v(s.push(x));
    lemma_raw_fields_v(s);
    assert(raw_fields_v(s.push(x)) =~= raw_fields_v(s).push((x.0@, raw_v(x.1))));
}

impl View for ParsedValue {
    type V = ParsedValueV;

    open spec fn view(&self) -> ParsedValueV {
        raw_v(*self)
    }
}

/// Equal element models give equal list models.
pub proof fn lemma_raw_elems_v_congr(a: Seq<ParsedValue>, b: Seq<ParsedValue>)
    requires
        a.len() == b.len(),
        forall|k: int| 0 <= k < a.len() ==> raw_v(#[trigger] a[k]) == raw_v(b[k]),
    ensures
        raw_elems_v(a) == raw_elems_v(b),
{
    lemma_raw_elems_v(a);
    lemma_raw_elems_v(b);
    assert(raw_elems_v(a) =~= raw_elems_v(b));
}

/// Equal keys and equal element models give equal field-list models.
pub proof fn lemma_raw_fields_v_congr(
    a: Seq<(String, ParsedValue)>,
    b: Seq<(String, ParsedValue)>,
)
    requires
        a.len() == b.len(),
        forall|k: int|
            0 <= k < a.len() ==> (#[trigger] a[k]).0@ == b[k].0@ && raw_v(a[k].1) == raw_v(
                b[k].1,
            ),
    ensures
        raw_fields_v(a) == raw_fields_v(b),
{
    lemma_raw_fields_v(a);
    lemma_raw_fields_v(b);
    assert(raw_fields_v(a) =~= raw_fields_v(b));
}

impl ParsedValue {
    /// An explicit deep copy whose contract says the copy models the
    /// original.
    pub fn dup(&self) -> (r: ParsedValue)
        ensures
            r@ == self@,
        decreases self,
    {
        match self {
            ParsedValue::Null => ParsedValue::Null,
            ParsedValue::Value(s) => ParsedValue::Value(s.clone()),
            ParsedValue::Array(vs) => {
                let mut out: Vec<ParsedValue> = Vec::new();
                let n = vs.len();
                let mut i: usize = 0;
                while i < n
                    invariant
                        *self == ParsedValue::Array(*vs),
                        n == vs@.len(),
                        0 <= i <= n,
                        out@.len() == i,
                        forall|k: int| 0 <= k < i ==> raw_v(#[trigger] out@[k]) == raw_v(vs@[k]),
                    decreases n - i,
                {
                    proof {
                        assert(decreases_to!(*self => self->Array_0));
                        assert(self->Array_0 == *vs);
                    }
                    let e = vs[i].dup();
                    out.push(e);
                    i += 1;
                }
                proof {
                    lemma_raw_elems_v_congr(out@, vs@);
                }
                ParsedValue::Array(out)
            },
            ParsedValue::Struct(fields) => {
                let mut out: Vec<(String, ParsedValue)> = Vec::new();
                let n = fields.len();
                let mut i: usize = 0;
                while i < n
                    invariant
                        *self == ParsedValue::Struct(*fields),
                        n == fields@.len(),
                        0 <= i <= n,
                        out@.len() == i,
                        forall|k: int|
                            0 <= k < i ==> (#[trigger] out@[k]).0@ == fields@[k].0@ && raw_v(
                                out@[k].1,
                            ) == raw_v(fields@[k].1),
                    decreases n - i,
                {
                    proof {
                        assert(decreases_to!(*self => self->Struct_0));
                        assert(self->Struct_0 == *fields);
                    }
                    let name = fields[i].0.clone();
                    let v = fields[i].1.dup();
                    out.push((name, v));
                    i += 1;
                }
                proof {
                    lemma_raw_fields_v_congr(out@, fields@);
                }
                ParsedValue::Struct(out)
            },
        }
    }
}

/// The model diagnostic a raw-value coercion failure carries.
pub open spec fn spec_coerce_err(code: u32, position: crate::types::PositionV) -> ParserErrorV {
    if code == 25 {
        csperr(
            ErrorKind::MultipleCharacters,
            25,
            "Can't input multiple characters in char"@,
            position,
        )
    } else {
        csperr(ErrorKind::InvalidType, 18, "Invalid type"@, position)
    }
}

/// Coercion of a raw fallback value against a declared type, by the same
/// structural rules as unification: `null` is accepted for any type as
/// `Null`; a literal text must coerce against the leaf type; an array
/// coerces every element; a struct requires every written key to be
/// declared and every declared field to be written or of option type; an
/// option unwraps one level. The error side is the diagnostic code.
pub open spec fn spec_coerce_raw(t: TypeV, v: ParsedValueV) -> Result<ValueV, u32>
    decreases t, v,
{
    if v is Null {
        Result::Ok(ValueV::Null)
    } else {
        match t {
            TypeV::Opt(t0) => spec_coerce_raw(*t0, v),
            TypeV::Array(et) => match v {
                ParsedValueV::Array(vs) => match spec_coerce_elems(*et, vs) {
                    Result::Ok(rs) => Result::Ok(ValueV::Array(rs)),
                    Result::Err(c) => Result::Err(c),
                },
                _ => Result::Err(18u32),
            },
            TypeV::Struct(fs) => match v {
                ParsedValueV::Struct(raws) => if raw_keys_declared(fs, raws) {
                    match spec_coerce_fields(fs, raws) {
                        Result::Ok(rs) => Result::Ok(ValueV::Struct(rs)),
                        Result::Err(c) => Result::Err(c),
                    }
                } else {
                    Result::Err(18u32)
                },
                _ => Result::Err(18u32),
            },
            _ => match v {
                ParsedValueV::Value(s) => spec_cfg_leaf(t, s),
                _ => Result::Err(18u32),
            },
        }
    }
}

pub open spec fn spec_coerce_elems(et: TypeV, vs: Seq<ParsedValueV>) -> Result<Seq<ValueV>, u32>
    decreases et, vs,
{
    if vs.len() == 0 {
        Result::Ok(Seq::empty())
    } else {
        match spec_coerce_raw(et, vs[0]) {
            Result::Ok(r0) => match spec_coerce_elems(et, vs.drop_first()) {
                Result::Ok(rest) => Result::Ok(seq![r0] + rest),
                Result::Err(c) => Result::Err(c),
            },
            Result::Err(c) => Result::Err(c),
        }
    }
}

/// Every written key names a declared field.
pub open spec fn raw_keys_declared(
    fs: Seq<(Seq<char>, TypeV)>,
    raws: Seq<(Seq<char>, ParsedValueV)>,
) -> bool {
    forall|k: int|
        0 <= k < raws.len() ==> crate::types::assoc_has(fs, (#[trigger] raws[k]).0)
}

pub open spec fn spec_coerce_fields(
    fs: Seq<(Seq<char>, TypeV)>,
    raws: Seq<(Seq<char>, ParsedValueV)>,
) -> Result<Seq<(Seq<char>, ValueV)>, u32>
    decreases fs, raws,
{
    if fs.len() == 0 {
        Result::Ok(Seq::empty())
    } else {
        let head = match assoc_get(raws, fs[0].0) {
            Option::Some(rv) => spec_coerce_raw(fs[0].1, rv),
            Option::None => if fs[0].1 is Opt {
                Result::Ok(ValueV::Null)
            } else {
                Result::Err(18u32)
            },
        };
        match head {
            Result::Ok(hv) => match spec_coerce_fields(fs.drop_first(), raws) {
                Result::Ok(rest) => Result::Ok(seq![(fs[0].0, hv)] + rest),
                Result::Err(c) => Result::Err(c),
            },
            Result::Err(c) => Result::Err(c),
        }
    }
}

/// The grammar of a raw clause array, from `i` just past the opener:
/// `null`, literal texts, arrays and structs, a comma between any two,
/// `]` closes; end of input means the array never closed.
pub open spec fn spec_parse_raw_array(
    toks: Seq<TokenV>,
    i: int,
    elements: Seq<ParsedValueV>,
    comma_used: bool,
) -> Result<(ParsedValueV, int), ParserErrorV>
    decreases toks.len() - i, 1int,
{
    if i < 0 || i >= toks.len() {
        Result::Err(
            csperr(ErrorKind::SyntaxError, 19, "Array is not closed"@, toks[i - 1].position),
        )
    } else {
        let t = toks[i];
        match t.value {
            CTokV::RightSquareBracket => Result::Ok((ParsedValueV::Array(elements), i + 1)),
            CTokV::Comma => if comma_used {
                Result::Err(
                    csperr(
                        ErrorKind::SyntaxError,
                        6,
                        "Comma position is invalid"@,
                        t.position,
                    ),
                )
            } else {
                spec_parse_raw_array(toks, i + 1, elements, true)
            },
            CTokV::LeftSquareBracket => match spec_parse_raw_array(
                toks,
                i + 1,
                Seq::empty(),
                false,
            ) {
                Result::Ok(p) => if elements.len() > 0 && !comma_used {
                    Result::Err(
                        csperr(ErrorKind::SyntaxError, 5, "Comma is required"@, t.position),
                    )
                } else {
                    spec_parse_raw_array(
                        toks,
                        adv(i, p.1, toks.len() as int),
                        elements.push(p.0),
                        false,
                    )
                },
                Result::Err(e) => Result::Err(e),
            },
            CTokV::LeftCurlyBracket => match spec_parse_raw_struct(
                toks,
                i + 1,
                Seq::empty(),
                false,
                Option::None,
                Option::None,
            ) {
                Result::Ok(p) => if elements.len() > 0 && !comma_used {
                    Result::Err(
                        csperr(ErrorKind::SyntaxError, 5, "Comma is required"@, t.position),
                    )
                } else {
                    spec_parse_raw_array(
                        toks,
                        adv(i, p.1, toks.len() as int),
                        elements.push(p.0),
                        false,
                    )
                },
                Result::Err(e) => Result::Err(e),
            },
            CTokV::Null => if elements.len() > 0 && !comma_used {
                Result::Err(csperr(ErrorKind::SyntaxError, 5, "Comma is required"@, t.position))
            } else {
                spec_parse_raw_array(toks, i + 1, elements.push(ParsedValueV::Null), false)
            },
            CTokV::Ident(text) => if elements.len() > 0 && !comma_used {
                Result::Err(csperr(ErrorKind::SyntaxError, 5, "Comma is required"@, t.position))
            } else {
                spec_parse_raw_array(
                    toks,
                    i + 1,
                    elements.push(ParsedValueV::Value(text)),
                    false,
                )
            },
            CTokV::Comment(_) => spec_parse_raw_array(toks, i + 1, elements, comma_used),
            _ => Result::Err(
                csperr(ErrorKind::SyntaxError, 22, "Invalid syntax"@, t.position),
            ),
        }
    }
}

/// The grammar of a raw clause struct, from `i` just past the opener:
/// `name: value;` entries with unique names, `}` closes; end of input
/// means the struct never closed.
pub open spec fn spec_parse_raw_struct(
    toks: Seq<TokenV>,
    i: int,
    fields: Seq<(Seq<char>, ParsedValueV)>,
    colon_used: bool,
    element_name: Option<Seq<char>>,
    element_value: Option<ParsedValueV>,
) -> Result<(ParsedValueV, int), ParserErrorV>
    decreases toks.len() - i, 1int,
{
    if i < 0 || i >= toks.len() {
        Result::Err(
            csperr(ErrorKind::SyntaxError, 21, "Struct is not closed"@, toks[i - 1].position),
        )
    } else {
        let t = toks[i];
        match t.value {
            CTokV::RightCurlyBracket => Result::Ok((ParsedValueV::Struct(fields), i + 1)),
            CTokV::Colon => if colon_used || element_name is None {
                Result::Err(
                    csperr(
                        ErrorKind::SyntaxError,
                        8,
                        "Colon position is invalid"@,
                        t.position,
                    ),
                )
            } else {
                spec_parse_raw_struct(toks, i + 1, fields, true, element_name, element_value)
            },
            CTokV::Semi => if !colon_used {
                Result::Err(csperr(ErrorKind::SyntaxError, 7, "Colon is required"@, t.position))
            } else if element_name is Some && element_value is Some {
                if crate::types::assoc_has(fields, element_name->0) {
                    Result::Err(
                        csperr(
                            ErrorKind::SyntaxError,
                            10,
                            "There are invalid elements"@,
                            t.position,
                        ),
                    )
                } else {
                    spec_parse_raw_struct(
                        toks,
                        i + 1,
                        fields.push((element_name->0, element_value->0)),
                        false,
                        Option::None,
                        Option::None,
                    )
                }
            } else {
                Result::Err(csperr(ErrorKind::SyntaxError, 22, "Invalid syntax"@, t.position))
            },
            CTokV::Null => if !colon_used || element_name is None || element_value is Some {
                Result::Err(csperr(ErrorKind::SyntaxError, 22, "Invalid syntax"@, t.position))
            } else {
                spec_parse_raw_struct(
                    toks,
                    i + 1,
                    fields,
                    colon_used,
                    element_name,
                    Option::Some(ParsedValueV::Null),
                )
            },
            CTokV::LeftSquareBracket => if !colon_used || element_name is None || element_value
                is Some {
                Result::Err(csperr(ErrorKind::SyntaxError, 22, "Invalid syntax"@, t.position))
            } else {
                match spec_parse_raw_array(toks, i + 1, Seq::empty(), false) {
                    Result::Ok(p) => spec_parse_raw_struct(
                        toks,
                        adv(i, p.1, toks.len() as int),
                        fields,
                        colon_used,
                        element_name,
                        Option::Some(p.0),
                    ),
                    Result::Err(e) => Result::Err(e),
                }
            },
            CTokV::LeftCurlyBracket => if !colon_used || element_name is None || element_value
                is Some {
                Result::Err(csperr(ErrorKind::SyntaxError, 22, "Invalid syntax"@, t.position))
            } else {
                match spec_parse_raw_struct(
                    toks,
                    i + 1,
                    Seq::empty(),
                    false,
                    Option::None,
                    Option::None,
                ) {
                    Result::Ok(p) => spec_parse_raw_struct(
                        toks,
                        adv(i, p.1, toks.len() as int),
                        fields,
                        colon_used,
                        element_name,
                        Option::Some(p.0),
                    ),
                    Result::Err(e) => Result::Err(e),
                }
            },
            CTokV::Ident(text) => if element_name is None {
                if colon_used {
                    Result::Err(
                        csperr(
                            ErrorKind::SyntaxError,
                            8,
                            "Colon position is invalid"@,
                            t.position,
                        ),
                    )
                } else {
                    spec_parse_raw_struct(
                        toks,
                        i + 1,
                        fields,
                        colon_used,
                        Option::Some(text),
                        element_value,
                    )
                }
            } else if colon_used && element_value is None {
                spec_parse_raw_struct(
                    toks,
                    i + 1,
                    fields,
                    colon_used,
                    element_name,
                    Option::Some(ParsedValueV::Value(text)),
                )
            } else {
                Result::Err(
                    csperr(
                        ErrorKind::SyntaxError,
                        10,
                        "There are invalid elements"@,
                        t.position,
                    ),
                )
            },
            CTokV::Comment(_) => spec_parse_raw_struct(
                toks,
                i + 1,
                fields,
                colon_used,
                element_name,
                element_value,
            ),
            _ => Result::Err(
                csperr(ErrorKind::SyntaxError, 22, "Invalid syntax"@, t.position),
            ),
        }
    }
}

/// Parses raw array elements from `i`, the index just past the opening
/// bracket, through the matching closing bracket, exactly as
/// `spec_parse_raw_array` says.
pub fn parse_array(toks: &Vec<Token>, i: usize) -> (r: Result<(ParsedValue, usize), ParserError>)
    requires
        1 <= i <= toks@.len(),
    ensures
        match r {
            Result::Ok(p) => i < p.1 <= toks@.len(),
            Result::Err(_) => true,
        },
        ({
            let sp = spec_parse_raw_array(toks_v(toks@), i as int, Seq::empty(), false);
            match r {
                Result::Ok(p) => sp == Result::<(ParsedValueV, int), ParserErrorV>::Ok(
                    (p.0@, p.1 as int),
                ),
                Result::Err(e) => sp == Result::<(ParsedValueV, int), ParserErrorV>::Err(e@),
            }
        }),
    decreases toks@.len() - i,
{
    let ghost tv = toks_v(toks@);
    proof {
        assert(forall|k: int| 0 <= k < toks@.len() ==> #[trigger] tv[k] == toks@[k]@);
    }
    let mut elements: Vec<ParsedValue> = Vec::new();
    let mut comma_used = false;
    let mut j = i;
    loop
        invariant
            1 <= i <= j <= toks@.len(),
            tv == toks_v(toks@),
            tv.len() == toks@.len(),
            forall|k: int| 0 <= k < toks@.len() ==> #[trigger] tv[k] == toks@[k]@,
            spec_parse_raw_array(tv, i as int, Seq::empty(), false) == spec_parse_raw_array(
                tv,
                j as int,
                raw_elems_v(elements@),
                comma_used,
            ),
        decreases toks@.len() - j,
    {
        let ghost els0 = raw_elems_v(elements@);
        if j >= toks.len() {
            let e = template_to_error(array_closed(), toks[j - 1].position.dup());
            proof {
                assert(spec_parse_raw_array(tv, j as int, els0, comma_used) == Result::<
                    (ParsedValueV, int),
                    ParserErrorV,
                >::Err(e@));
            }
            return Err(e);
        }
        proof {
            assert(tv[j as int] == toks@[j as int]@);
        }
        match &toks[j].value {
            TokValue::RightSquareBracket => {
                return Ok((ParsedValue::Array(elements), j + 1));
            },
            TokValue::Comma => {
                if comma_used {
                    let e = template_to_error(comma_position(), toks[j].position.dup());
                    proof {
                        assert(spec_parse_raw_array(tv, j as int, els0, comma_used) == Result::<
                            (ParsedValueV, int),
                            ParserErrorV,
                        >::Err(e@));
                    }
                    return Err(e);
                }
                comma_used = true;
                j = j + 1;
            },
            TokValue::LeftSquareBracket => {
                match parse_array(toks, j + 1) {
                    Ok(p) => {
                        if elements.len() > 0 && !comma_used {
                            let e = template_to_error(comma_required(), toks[j].position.dup());
                            proof {
                                assert(spec_parse_raw_array(tv, j as int, els0, comma_used)
                                    == Result::<(ParsedValueV, int), ParserErrorV>::Err(e@));
                            }
                            return Err(e);
                        }
                        let (v, j2) = p;
                        proof {
                            lemma_raw_elems_v_push(elements@, v);
                            assert(adv(j as int, j2 as int, tv.len() as int) == j2 as int);
                        }
                        elements.push(v);
                        comma_used = false;
                        j = j2;
                    },
                    Err(e) => {
                        proof {
                            assert(spec_parse_raw_array(tv, j as int, els0, comma_used)
                                == Result::<(ParsedValueV, int), ParserErrorV>::Err(e@));
                        }
                        return Err(e);
                    },
                }
            },
            TokValue::LeftCurlyBracket => {
                match parse_struct(toks, j + 1) {
                    Ok(p) => {
                        if elements.len() > 0 && !comma_used {
                            let e = template_to_error(comma_required(), toks[j].position.dup());
                            proof {
                                assert(spec_parse_raw_array(tv, j as int, els0, comma_used)
                                    == Result::<(ParsedValueV, int), ParserErrorV>::Err(e@));
                            }
                            return Err(e);
                        }
                        let (v, j2) = p;
                        proof {
                            lemma_raw_elems_v_push(elements@, v);
                            assert(adv(j as int, j2 as int, tv.len() as int) == j2 as int);
                        }
                        elements.push(v);
                        comma_used = false;
                        j = j2;
                    },
                    Err(e) => {
                        proof {
                            assert(spec_parse_raw_array(tv, j as int, els0, comma_used)
                                == Result::<(ParsedValueV, int), ParserErrorV>::Err(e@));
                        }
                        return Err(e);
                    },
                }
            },
            TokValue::Null => {
                if elements.len() > 0 && !comma_used {
                    let e = template_to_error(comma_required(), toks[j].position.dup());
                    proof {
                        assert(spec_parse_raw_array(tv, j as int, els0, comma_used) == Result::<
                            (ParsedValueV, int),
                            ParserErrorV,
                        >::Err(e@));
                    }
                    return Err(e);
                }
                proof {
                    lemma_raw_elems_v_push(elements@, ParsedValue::Null);
                }
                elements.push(ParsedValue::Null);
                comma_used = false;
                j = j + 1;
            },
            TokValue::Ident(text) => {
                if elements.len() > 0 && !comma_used {
                    let e = template_to_error(comma_required(), toks[j].position.dup());
                    proof {
                        assert(spec_parse_raw_array(tv, j as int, els0, comma_used) == Result::<
                            (ParsedValueV, int),
                            ParserErrorV,
                        >::Err(e@));
                    }
                    return Err(e);
                }
                let raw = ParsedValue::Value(text.clone());
                proof {
                    lemma_raw_elems_v_push(elements@, raw);
                }
                elements.push(raw);
                comma_used = false;
                j = j + 1;
            },
            TokValue::Comment(_) => {
                j = j + 1;
            },
            _ => {
                let e = template_to_error(invalid_syntax(), toks[j].position.dup());
                proof {
                    assert(spec_parse_raw_array(tv, j as int, els0, comma_used) == Result::<
                        (ParsedValueV, int),
                        ParserErrorV,
                    >::Err(e@));
                }
                return Err(e);
            },
        }
    }
}

/// Parses raw struct fields (`name: value;` entries) from `i`, the index
/// just past the opening brace, through the matching closing brace,
/// exactly as `spec_parse_raw_struct` says.
pub fn parse_struct(toks: &Vec<Token>, i: usize) -> (r: Result<(ParsedValue, usize), ParserError>)
    requires
        1 <= i <= toks@.len(),
    ensures
        match r {
            Result::Ok(p) => i < p.1 <= toks@.len(),
            Result::Err(_) => true,
        },
        ({
            let sp = spec_parse_raw_struct(
                toks_v(toks@),
                i as int,
                Seq::empty(),
                false,
                Option::None,
                Option::None,
            );
            match r {
                Result::Ok(p) => sp == Result::<(ParsedValueV, int), ParserErrorV>::Ok(
                    (p.0@, p.1 as int),
                ),
                Result::Err(e) => sp == Result::<(ParsedValueV, int), ParserErrorV>::Err(e@),
            }
        }),
    decreases toks@.len() - i,
{
    let ghost tv = toks_v(toks@);
    proof {
        assert(forall|k: int| 0 <= k < toks@.len() ==> #[trigger] tv[k] == toks@[k]@);
    }
    let mut fields: Vec<(String, ParsedValue)> = Vec::new();
    let mut colon_used = false;
    let mut element_name: Option<String> = None;
    let mut element_value: Option<ParsedValue> = None;
    let mut j = i;
    loop
        invariant
            1 <= i <= j <= toks@.len(),
            tv == toks_v(toks@),
            tv.len() == toks@.len(),
            forall|k: int| 0 <= k < toks@.len() ==> #[trigger] tv[k] == toks@[k]@,
            spec_parse_raw_struct(
                tv,
                i as int,
                Seq::empty(),
                false,
                Option::None,
                Option::None,
            ) == spec_parse_raw_struct(
                tv,
                j as int,
                raw_fields_v(fields@),
                colon_used,
                match element_name {
                    Option::Some(nm) => Option::Some(nm@),
                    Option::None => Option::None,
                },
                match element_value {
                    Option::Some(v) => Option::Some(v@),
                    Option::None => Option::None,
                },
            ),
        decreases toks@.len() - j,
    {
        let ghost flds0 = raw_fields_v(fields@);
        let ghost nm0: Option<Seq<char>> = match &element_name {
            Option::Some(nm) => Option::Some(nm@),
            Option::None => Option::None,
        };
        let ghost vl0: Option<ParsedValueV> = match &element_value {
            Option::Some(v) => Option::Some(v@),
            Option::None => Option::None,
        };
        proof {
            lemma_raw_fields_v(fields@);
        }
        if j >= toks.len() {
            let e = template_to_error(struct_closed(), toks[j - 1].position.dup());
            proof {
                assert(spec_parse_raw_struct(tv, j as int, flds0, colon_used, nm0, vl0)
                    == Result::<(ParsedValueV, int), ParserErrorV>::Err(e@));
            }
            return Err(e);
        }
        proof {
            assert(tv[j as int] == toks@[j as int]@);
        }
        match &toks[j].value {
            TokValue::RightCurlyBracket => {
                return Ok((ParsedValue::Struct(fields), j + 1));
            },
            TokValue::Colon => {
                if colon_used || element_name.is_none() {
                    let e = template_to_error(colon_position(), toks[j].position.dup());
                    proof {
                        assert(spec_parse_raw_struct(tv, j as int, flds0, colon_used, nm0, vl0)
                            == Result::<(ParsedValueV, int), ParserErrorV>::Err(e@));
                    }
                    return Err(e);
                }
                colon_used = true;
                j = j + 1;
            },
            TokValue::Semi => {
                if !colon_used {
                    let e = template_to_error(colon_required(), toks[j].position.dup());
                    proof {
                        assert(spec_parse_raw_struct(tv, j as int, flds0, colon_used, nm0, vl0)
                            == Result::<(ParsedValueV, int), ParserErrorV>::Err(e@));
                    }
                    return Err(e);
                }
                if element_name.is_some() && element_value.is_some() {
                    let entry = match (&element_name, &element_value) {
                        (Some(name), Some(value)) => {
                            if let Some(ix) = crate::types::assoc_find_idx(&fields, name) {
                                let e = template_to_error(
                                    invalid_elements(),
                                    toks[j].position.dup(),
                                );
                                proof {
                                    assert(fields@[ix as int].0@ == name@);
                                    crate::types::lemma_assoc_get_some(flds0, name@, ix as int);
                                    assert(spec_parse_raw_struct(tv, j as int, flds0, colon_used,
                                        nm0, vl0) == Result::<
                                        (ParsedValueV, int),
                                        ParserErrorV,
                                    >::Err(e@));
                                }
                                return Err(e);
                            }
                            let key = name.clone();
                            let rv = value.dup();
                            proof {
                                crate::types::lemma_assoc_get_none(flds0, name@);
                                lemma_raw_fields_v_push(fields@, (key, rv));
                            }
                            (key, rv)
                        },
                        _ => {
                            let e = template_to_error(invalid_syntax(), toks[j].position.dup());
                            return Err(e);
                        },
                    };
                    fields.push(entry);
                    element_name = None;
                    element_value = None;
                    colon_used = false;
                    j = j + 1;
                } else {
                    let e = template_to_error(invalid_syntax(), toks[j].position.dup());
                    proof {
                        assert(spec_parse_raw_struct(tv, j as int, flds0, colon_used, nm0, vl0)
                            == Result::<(ParsedValueV, int), ParserErrorV>::Err(e@));
                    }
                    return Err(e);
                }
            },
            TokValue::Null => {
                if !colon_used || element_name.is_none() || element_value.is_some() {
                    let e = template_to_error(invalid_syntax(), toks[j].position.dup());
                    proof {
                        assert(spec_parse_raw_struct(tv, j as int, flds0, colon_used, nm0, vl0)
                            == Result::<(ParsedValueV, int), ParserErrorV>::Err(e@));
                    }
                    return Err(e);
                }
                element_value = Some(ParsedValue::Null);
                j = j + 1;
            },
            TokValue::LeftSquareBracket => {
                if !colon_used || element_name.is_none() || element_value.is_some() {
                    let e = template_to_error(invalid_syntax(), toks[j].position.dup());
                    proof {
                        assert(spec_parse_raw_struct(tv, j as int, flds0, colon_used, nm0, vl0)
                            == Result::<(ParsedValueV, int), ParserErrorV>::Err(e@));
                    }
                    return Err(e);
                }
                match parse_array(toks, j + 1) {
                    Ok(p) => {
                        let (v, j2) = p;
                        proof {
                            assert(adv(j as int, j2 as int, tv.len() as int) == j2 as int);
                        }
                        element_value = Some(v);
                        j = j2;
                    },
                    Err(e) => {
                        proof {
                            assert(spec_parse_raw_struct(tv, j as int, flds0, colon_used, nm0,
                                vl0) == Result::<(ParsedValueV, int), ParserErrorV>::Err(e@));
                        }
                        return Err(e);
                    },
                }
            },
            TokValue::LeftCurlyBracket => {
                if !colon_used || element_name.is_none() || element_value.is_some() {
                    let e = template_to_error(invalid_syntax(), toks[j].position.dup());
                    proof {
                        assert(spec_parse_raw_struct(tv, j as int, flds0, colon_used, nm0, vl0)
                            == Result::<(ParsedValueV, int), ParserErrorV>::Err(e@));
                    }
                    return Err(e);
                }
                match parse_struct(toks, j + 1) {
                    Ok(p) => {
                        let (v, j2) = p;
                        proof {
                            assert(adv(j as int, j2 as int, tv.len() as int) == j2 as int);
                        }
                        element_value = Some(v);
                        j = j2;
                    },
                    Err(e) => {
                        proof {
                            assert(spec_parse_raw_struct(tv, j as int, flds0, colon_used, nm0,
                                vl0) == Result::<(ParsedValueV, int), ParserErrorV>::Err(e@));
                        }
                        return Err(e);
                    },
                }
            },
            TokValue::Ident(text) => {
                if element_name.is_none() {
                    if colon_used {
                        let e = template_to_error(colon_position(), toks[j].position.dup());
                        proof {
                            assert(spec_parse_raw_struct(tv, j as int, flds0, colon_used, nm0,
                                vl0) == Result::<(ParsedValueV, int), ParserErrorV>::Err(e@));
                        }
                        return Err(e);
                    }
                    element_name = Some(text.clone());
                    j = j + 1;
                } else if colon_used && element_value.is_none() {
                    element_value = Some(ParsedValue::Value(text.clone()));
                    j = j + 1;
                } else {
                    let e = template_to_error(invalid_elements(), toks[j].position.dup());
                    proof {
                        assert(spec_parse_raw_struct(tv, j as int, flds0, colon_used, nm0, vl0)
                            == Result::<(ParsedValueV, int), ParserErrorV>::Err(e@));
                    }
                    return Err(e);
                }
            },
            TokValue::Comment(_) => {
                j = j + 1;
            },
            _ => {
                let e = template_to_error(invalid_syntax(), toks[j].position.dup());
                proof {
                    assert(spec_parse_raw_struct(tv, j as int, flds0, colon_used, nm0, vl0)
                        == Result::<(ParsedValueV, int), ParserErrorV>::Err(e@));
                }
                return Err(e);
            },
        }
    }
}

/// The grammar of a `(default: …, actions: …)` clause, from `i` just
/// past the opening parenthesis: `key : value` pairs with a comma
/// between any two, keys `default` and `actions`, values `null`, literal
/// texts, arrays or structs; `)` closes with either slot `null` when not
/// written; end of input means the clause never closed.
pub open spec fn spec_parse_clause(
    toks: Seq<TokenV>,
    i: int,
    dflt: ParsedValueV,
    acts: ParsedValueV,
    pending: Option<Seq<char>>,
    colon_used: bool,
    comma_used: bool,
    any_assigned: bool,
) -> Result<((ParsedValueV, ParsedValueV), int), ParserErrorV>
    decreases toks.len() - i, 1int,
{
    if i < 0 || i >= toks.len() {
        Result::Err(
            csperr(ErrorKind::SyntaxError, 23, "Option is not closed"@, toks[i - 1].position),
        )
    } else {
        let t = toks[i];
        let is_assign = t.value is Null || t.value is LeftSquareBracket || t.value
            is LeftCurlyBracket || (t.value is Ident && pending is Some);
        if is_assign {
            if !colon_used || pending is None {
                Result::Err(
                    csperr(ErrorKind::SyntaxError, 7, "Colon is required"@, t.position),
                )
            } else if any_assigned && !comma_used {
                Result::Err(
                    csperr(ErrorKind::SyntaxError, 5, "Comma is required"@, t.position),
                )
            } else {
                match t.value {
                    CTokV::Null => spec_clause_store(
                        toks,
                        i,
                        dflt,
                        acts,
                        pending->0,
                        ParsedValueV::Null,
                        i + 1,
                    ),
                    CTokV::Ident(text) => spec_clause_store(
                        toks,
                        i,
                        dflt,
                        acts,
                        pending->0,
                        ParsedValueV::Value(text),
                        i + 1,
                    ),
                    CTokV::LeftSquareBracket => match spec_parse_raw_array(
                        toks,
                        i + 1,
                        Seq::empty(),
                        false,
                    ) {
                        Result::Ok(p) => spec_clause_store(
                            toks,
                            i,
                            dflt,
                            acts,
                            pending->0,
                            p.0,
                            p.1,
                        ),
                        Result::Err(e) => Result::Err(e),
                    },
                    _ => match spec_parse_raw_struct(
                        toks,
                        i + 1,
                        Seq::empty(),
                        false,
                        Option::None,
                        Option::None,
                    ) {
                        Result::Ok(p) => spec_clause_store(
                            toks,
                            i,
                            dflt,
                            acts,
                            pending->0,
                            p.0,
                            p.1,
                        ),
                        Result::Err(e) => Result::Err(e),
                    },
                }
            }
        } else {
            match t.value {
                CTokV::RightParentheses => Result::Ok(((dflt, acts), i + 1)),
                CTokV::Colon => if colon_used || pending is None {
                    Result::Err(
                        csperr(
                            ErrorKind::SyntaxError,
                            8,
                            "Colon position is invalid"@,
                            t.position,
                        ),
                    )
                } else {
                    spec_parse_clause(
                        toks,
                        i + 1,
                        dflt,
                        acts,
                        pending,
                        true,
                        comma_used,
                        any_assigned,
                    )
                },
                CTokV::Comma => if comma_used {
                    Result::Err(
                        csperr(
                            ErrorKind::SyntaxError,
                            6,
                            "Comma position is invalid"@,
                            t.position,
                        ),
                    )
                } else {
                    spec_parse_clause(
                        toks,
                        i + 1,
                        dflt,
                        acts,
                        pending,
                        colon_used,
                        true,
                        any_assigned,
                    )
                },
                CTokV::Ident(text) => spec_parse_clause(
                    toks,
                    i + 1,
                    dflt,
                    acts,
                    Option::Some(text),
                    colon_used,
                    comma_used,
                    any_assigned,
                ),
                CTokV::Comment(_) => spec_parse_clause(
                    toks,
                    i + 1,
                    dflt,
                    acts,
                    pending,
                    colon_used,
                    comma_used,
                    any_assigned,
                ),
                _ => Result::Err(
                    csperr(ErrorKind::SyntaxError, 22, "Invalid syntax"@, t.position),
                ),
            }
        }
    }
}

/// What an assigned clause value does: it lands in the slot its key
/// names; an unknown key is refused at the last consumed token.
pub open spec fn spec_clause_store(
    toks: Seq<TokenV>,
    i: int,
    dflt: ParsedValueV,
    acts: ParsedValueV,
    key: Seq<char>,
    v: ParsedValueV,
    next: int,
) -> Result<((ParsedValueV, ParsedValueV), int), ParserErrorV>
    decreases toks.len() - i, 0int,
{
    if i < 0 || i >= toks.len() {
        Result::Err(
            csperr(ErrorKind::SyntaxError, 23, "Option is not closed"@, toks[i - 1].position),
        )
    } else {
        let nj = adv(i, next, toks.len() as int);
        if key == "default"@ {
            spec_parse_clause(toks, nj, v, acts, Option::None, false, false, true)
        } else if key == "actions"@ {
            spec_parse_clause(toks, nj, dflt, v, Option::None, false, false, true)
        } else {
            Result::Err(
                csperr(ErrorKind::SyntaxError, 22, "Invalid syntax"@, toks[nj - 1].position),
            )
        }
    }
}

/// Parses a `(default: …, actions: …)` clause from `i`, the index just
/// past the opening parenthesis, through the matching closing parenthesis,
/// exactly as `spec_parse_clause` says; either slot is `Null` when not
/// written.
pub fn parse_option_value(toks: &Vec<Token>, i: usize) -> (r: Result<
    ((ParsedValue, ParsedValue), usize),
    ParserError,
>)
    requires
        1 <= i <= toks@.len(),
    ensures
        match r {
            Result::Ok(p) => i < p.1 <= toks@.len(),
            Result::Err(_) => true,
        },
        ({
            let sp = spec_parse_clause(
                toks_v(toks@),
                i as int,
                ParsedValueV::Null,
                ParsedValueV::Null,
                Option::None,
                false,
                false,
                false,
            );
            match r {
                Result::Ok(p) => sp == Result::<
                    ((ParsedValueV, ParsedValueV), int),
                    ParserErrorV,
                >::Ok(((p.0.0@, p.0.1@), p.1 as int)),
                Result::Err(e) => sp == Result::<
                    ((ParsedValueV, ParsedValueV), int),
                    ParserErrorV,
                >::Err(e@),
            }
        }),
    decreases toks@.len() - i,
{
    let ghost tv = toks_v(toks@);
    proof {
        assert(forall|k: int| 0 <= k < toks@.len() ==> #[trigger] tv[k] == toks@[k]@);
    }
    let mut default_value = ParsedValue::Null;
    let mut actions_value = ParsedValue::Null;
    let mut pending: Option<String> = None;
    let mut colon_used = false;
    let mut comma_used = false;
    let mut assigned: usize = 0;
    let mut j = i;
    loop
        invariant
            1 <= i <= j <= toks@.len(),
            tv == toks_v(toks@),
            tv.len() == toks@.len(),
            forall|k: int| 0 <= k < toks@.len() ==> #[trigger] tv[k] == toks@[k]@,
            spec_parse_clause(
                tv,
                i as int,
                ParsedValueV::Null,
                ParsedValueV::Null,
                Option::None,
                false,
                false,
                false,
            ) == spec_parse_clause(
                tv,
                j as int,
                default_value@,
                actions_value@,
                match pending {
                    Option::Some(p) => Option::Some(p@),
                    Option::None => Option::None,
                },
                colon_used,
                comma_used,
                assigned > 0,
            ),
        decreases toks@.len() - j,
    {
        let ghost j0 = j as int;
        let ghost dv0 = default_value@;
        let ghost av0 = actions_value@;
        let ghost pd0: Option<Seq<char>> = match &pending {
            Option::Some(p) => Option::Some(p@),
            Option::None => Option::None,
        };
        let ghost asg0 = assigned > 0;
        if j >= toks.len() {
            let e = template_to_error(option_closed(), toks[j - 1].position.dup());
            proof {
                assert(spec_parse_clause(tv, j0, dv0, av0, pd0, colon_used, comma_used, asg0)
                    == Result::<((ParsedValueV, ParsedValueV), int), ParserErrorV>::Err(e@));
            }
            return Err(e);
        }
        proof {
            assert(tv[j0] == toks@[j0]@);
        }
        let assign = matches!(&toks[j].value, TokValue::Null) || matches!(
            &toks[j].value,
            TokValue::LeftSquareBracket,
        ) || matches!(&toks[j].value, TokValue::LeftCurlyBracket) || (matches!(
            &toks[j].value,
            TokValue::Ident(_),
        ) && pending.is_some());
        if assign {
            if !colon_used || pending.is_none() {
                let e = template_to_error(colon_required(), toks[j].position.dup());
                proof {
                    assert(spec_parse_clause(tv, j0, dv0, av0, pd0, colon_used, comma_used, asg0)
                        == Result::<((ParsedValueV, ParsedValueV), int), ParserErrorV>::Err(
                        e@,
                    ));
                }
                return Err(e);
            }
            if assigned > 0 && !comma_used {
                let e = template_to_error(comma_required(), toks[j].position.dup());
                proof {
                    assert(spec_parse_clause(tv, j0, dv0, av0, pd0, colon_used, comma_used, asg0)
                        == Result::<((ParsedValueV, ParsedValueV), int), ParserErrorV>::Err(
                        e@,
                    ));
                }
                return Err(e);
            }
            let value: ParsedValue;
            match &toks[j].value {
                TokValue::Null => {
                    value = ParsedValue::Null;
                    j = j + 1;
                },
                TokValue::Ident(text) => {
                    value = ParsedValue::Value(text.clone());
                    j = j + 1;
                },
                TokValue::LeftSquareBracket => {
                    match parse_array(toks, j + 1) {
                        Ok(p) => {
                            let (v, j2) = p;
                            value = v;
                            j = j2;
                        },
                        Err(e) => {
                            proof {
                                assert(spec_parse_clause(tv, j0, dv0, av0, pd0, colon_used,
                                    comma_used, asg0) == Result::<
                                    ((ParsedValueV, ParsedValueV), int),
                                    ParserErrorV,
                                >::Err(e@));
                            }
                            return Err(e);
                        },
                    }
                },
                _ => {
                    match parse_struct(toks, j + 1) {
                        Ok(p) => {
                            let (v, j2) = p;
                            value = v;
                            j = j2;
                        },
                        Err(e) => {
                            proof {
                                assert(spec_parse_clause(tv, j0, dv0, av0, pd0, colon_used,
                                    comma_used, asg0) == Result::<
                                    ((ParsedValueV, ParsedValueV), int),
                                    ParserErrorV,
                                >::Err(e@));
                            }
                            return Err(e);
                        },
                    }
                },
            }
            let ghost vv = value@;
            proof {
                assert(spec_parse_clause(tv, j0, dv0, av0, pd0, colon_used, comma_used, asg0)
                    == spec_clause_store(tv, j0, dv0, av0, pd0->0, vv, j as int));
            }
            let key_is_default = match &pending {
                Some(k) => *k == String::from_str("default"),
                None => false,
            };
            let key_is_actions = match &pending {
                Some(k) => *k == String::from_str("actions"),
                None => false,
            };
            if key_is_default {
                default_value = value;
            } else if key_is_actions {
                actions_value = value;
            } else {
                let e = template_to_error(invalid_syntax(), toks[j - 1].position.dup());
                proof {
                    assert(spec_clause_store(tv, j0, dv0, av0, pd0->0, vv, j as int)
                        == Result::<((ParsedValueV, ParsedValueV), int), ParserErrorV>::Err(
                        e@,
                    ));
                }
                return Err(e);
            }
            pending = None;
            colon_used = false;
            comma_used = false;
            assigned = if assigned < usize::MAX {
                assigned + 1
            } else {
                assigned
            };
        } else {
            match &toks[j].value {
                TokValue::RightParentheses => {
                    return Ok(((default_value, actions_value), j + 1));
                },
                TokValue::Colon => {
                    if colon_used || pending.is_none() {
                        let e = template_to_error(colon_position(), toks[j].position.dup());
                        proof {
                            assert(spec_parse_clause(tv, j0, dv0, av0, pd0, colon_used,
                                comma_used, asg0) == Result::<
                                ((ParsedValueV, ParsedValueV), int),
                                ParserErrorV,
                            >::Err(e@));
                        }
                        return Err(e);
                    }
                    colon_used = true;
                    j = j + 1;
                },
                TokValue::Comma => {
                    if comma_used {
                        let e = template_to_error(comma_position(), toks[j].position.dup());
                        proof {
                            assert(spec_parse_clause(tv, j0, dv0, av0, pd0, colon_used,
                                comma_used, asg0) == Result::<
                                ((ParsedValueV, ParsedValueV), int),
                                ParserErrorV,
                            >::Err(e@));
                        }
                        return Err(e);
                    }
                    comma_used = true;
                    j = j + 1;
                },
                TokValue::Ident(text) => {
                    pending = Some(text.clone());
                    j = j + 1;
                },
                TokValue::Comment(_) => {
                    j = j + 1;
                },
                _ => {
                    let e = template_to_error(invalid_syntax(), toks[j].position.dup());
                    proof {
                        assert(spec_parse_clause(tv, j0, dv0, av0, pd0, colon_used, comma_used,
                            asg0) == Result::<
                            ((ParsedValueV, ParsedValueV), int),
                            ParserErrorV,
                        >::Err(e@));
                    }
                    return Err(e);
                },
            }
        }
    }
}

/// Coerces one raw fallback value against one declared type, exactly as
/// `spec_coerce_raw` says; an error carries `position`.
pub fn parse_parsed_value(v: &ParsedValue, t: &Type, position: &Position) -> (r: Result<
    Value,
    ParserError,
>)
    ensures
        match r {
            Result::Ok(val) => spec_coerce_raw(type_v(*t), raw_v(*v)) == Result::<ValueV, u32>::Ok(
                value_v(val),
            ),
            Result::Err(e) => spec_coerce_raw(type_v(*t), raw_v(*v)) == Result::<
                ValueV,
                u32,
            >::Err(e.code) && e@ == spec_coerce_err(e.code, position@),
        },
    decreases t, v,
{
    if matches!(v, ParsedValue::Null) {
        return Ok(Value::Null);
    }
    match t {
        Type::Option(t0) => parse_parsed_value(v, t0, position),
        Type::Array(bx) => match v {
            ParsedValue::Array(vs) => {
                let ghost et = type_v(**bx);
                let ghost vs_v = raw_elems_v(vs@);
                proof {
                    lemma_raw_elems_v(vs@);
                }
                let mut out: Vec<Value> = Vec::new();
                let n = vs.len();
                proof {
                    assert(vs_v.skip(0) =~= vs_v);
                    assert(value_elems_v(out@) =~= Seq::<ValueV>::empty());
                    if spec_coerce_elems(et, vs_v) is Ok {
                        assert(value_elems_v(out@) + spec_coerce_elems(et, vs_v)->Ok_0
                            =~= spec_coerce_elems(et, vs_v)->Ok_0);
                    }
                }
                let mut k: usize = 0;
                while k < n
                    invariant
                        *t == Type::Array(*bx),
                        *v == ParsedValue::Array(*vs),
                        et == type_v(**bx),
                        vs_v == raw_elems_v(vs@),
                        vs_v.len() == vs@.len(),
                        forall|i: int| 0 <= i < vs@.len() ==> vs_v[i] == raw_v(#[trigger] vs@[i]),
                        n == vs@.len(),
                        0 <= k <= n,
                        spec_coerce_elems(et, vs_v) == (match spec_coerce_elems(
                            et,
                            vs_v.skip(k as int),
                        ) {
                            Result::Ok(rest) => Result::<Seq<ValueV>, u32>::Ok(
                                value_elems_v(out@) + rest,
                            ),
                            Result::Err(c) => Result::<Seq<ValueV>, u32>::Err(c),
                        }),
                    decreases n - k,
                {
                    proof {
                        assert(decreases_to!(*t => t->Array_0));
                        assert(vs_v.skip(k as int).drop_first() =~= vs_v.skip(k + 1 as int));
                        assert(vs_v.skip(k as int)[0] == vs_v[k as int]);
                    }
                    match parse_parsed_value(&vs[k], bx, position) {
                        Ok(val) => {
                            let ghost out0 = out@;
                            proof {
                                lemma_value_elems_v_push(out0, val);
                            }
                            out.push(val);
                            proof {
                                assert(value_elems_v(out@) == value_elems_v(out0).push(
                                    value_v(val),
                                ));
                                if spec_coerce_elems(et, vs_v.skip(k + 1 as int)) is Ok {
                                    let rest = spec_coerce_elems(
                                        et,
                                        vs_v.skip(k + 1 as int),
                                    )->Ok_0;
                                    assert(value_elems_v(out@) + rest =~= value_elems_v(out0) + (
                                    seq![value_v(val)] + rest));
                                }
                            }
                            k += 1;
                        },
                        Err(e) => {
                            return Err(e);
                        },
                    }
                }
                proof {
                    assert(vs_v.skip(n as int) =~= Seq::<ParsedValueV>::empty());
                    assert(value_elems_v(out@) + Seq::<ValueV>::empty() =~= value_elems_v(out@));
                }
                Ok(Value::Array(out))
            },
            _ => Err(template_to_error(invalid_type(), position.dup())),
        },
        Type::Struct(fs) => match v {
            ParsedValue::Struct(raws) => {
                let ghost fs_v = type_fields_v(fs@);
                let ghost raws_v = raw_fields_v(raws@);
                proof {
                    lemma_type_fields_v(fs@);
                    lemma_raw_fields_v(raws@);
                }
                // every written key must be declared
                let rn = raws.len();
                let mut k: usize = 0;
                while k < rn
                    invariant
                        *t == Type::Struct(*fs),
                        *v == ParsedValue::Struct(*raws),
                        fs_v == type_fields_v(fs@),
                        raws_v == raw_fields_v(raws@),
                        fs_v.len() == fs@.len(),
                        raws_v.len() == raws@.len(),
                        forall|i: int|
                            0 <= i < fs@.len() ==> #[trigger] fs_v[i] == (
                                fs@[i].0@,
                                type_v(fs@[i].1),
                            ),
                        forall|i: int|
                            0 <= i < raws@.len() ==> #[trigger] raws_v[i] == (
                                raws@[i].0@,
                                raw_v(raws@[i].1),
                            ),
                        rn == raws@.len(),
                        0 <= k <= rn,
                        forall|i: int|
                            0 <= i < k ==> crate::types::assoc_has(fs_v, (#[trigger] raws_v[i]).0),
                    decreases rn - k,
                {
                    match crate::types::assoc_find_idx(fs, &raws[k].0) {
                        Some(j) => {
                            proof {
                                assert(forall|a: int|
                                    0 <= a < j ==> (#[trigger] fs_v[a]).0 != raws_v[k as int].0);
                                lemma_assoc_get_some(fs_v, raws_v[k as int].0, j as int);
                            }
                        },
                        None => {
                            proof {
                                assert(forall|a: int|
                                    0 <= a < fs_v.len() ==> (#[trigger] fs_v[a]).0
                                        != raws_v[k as int].0);
                                lemma_assoc_get_none(fs_v, raws_v[k as int].0);
                                assert(!raw_keys_declared(fs_v, raws_v));
                            }
                            return Err(template_to_error(invalid_type(), position.dup()));
                        },
                    }
                    k += 1;
                }
                // coerce every declared field
                let fn_ = fs.len();
                let mut out: Vec<(String, Value)> = Vec::new();
                proof {
                    assert(raw_keys_declared(fs_v, raws_v));
                    assert(fs_v.skip(0) =~= fs_v);
                    assert(value_fields_v(out@) =~= Seq::<(Seq<char>, ValueV)>::empty());
                    if spec_coerce_fields(fs_v, raws_v) is Ok {
                        assert(value_fields_v(out@) + spec_coerce_fields(fs_v, raws_v)->Ok_0
                            =~= spec_coerce_fields(fs_v, raws_v)->Ok_0);
                    }
                }
                let mut i: usize = 0;
                while i < fn_
                    invariant
                        *t == Type::Struct(*fs),
                        *v == ParsedValue::Struct(*raws),
                        fs_v == type_fields_v(fs@),
                        raws_v == raw_fields_v(raws@),
                        fs_v.len() == fs@.len(),
                        raws_v.len() == raws@.len(),
                        forall|a: int|
                            0 <= a < fs@.len() ==> #[trigger] fs_v[a] == (
                                fs@[a].0@,
                                type_v(fs@[a].1),
                            ),
                        forall|a: int|
                            0 <= a < raws@.len() ==> #[trigger] raws_v[a] == (
                                raws@[a].0@,
                                raw_v(raws@[a].1),
                            ),
                        fn_ == fs@.len(),
                        0 <= i <= fn_,
                        raw_keys_declared(fs_v, raws_v),
                        spec_coerce_fields(fs_v, raws_v) == (match spec_coerce_fields(
                            fs_v.skip(i as int),
                            raws_v,
                        ) {
                            Result::Ok(rest) => Result::<Seq<(Seq<char>, ValueV)>, u32>::Ok(
                                value_fields_v(out@) + rest,
                            ),
                            Result::Err(c) => Result::<Seq<(Seq<char>, ValueV)>, u32>::Err(c),
                        }),
                    decreases fn_ - i,
                {
                    proof {
                        assert(decreases_to!(*t => t->Struct_0));
                        assert(fs_v.skip(i as int).drop_first() =~= fs_v.skip(i + 1 as int));
                        assert(fs_v.skip(i as int)[0] == fs_v[i as int]);
                    }
                    let name = &fs[i].0;
                    let head: Value = match crate::types::assoc_find_idx(raws, name) {
                        Some(ridx) => {
                            proof {
                                assert(forall|a: int|
                                    0 <= a < ridx ==> (#[trigger] raws_v[a]).0 != fs_v[i as int].0);
                                lemma_assoc_get_some(raws_v, fs_v[i as int].0, ridx as int);
                            }
                            match parse_parsed_value(&raws[ridx].1, &fs[i].1, position) {
                                Ok(val) => val,
                                Err(e) => {
                                    return Err(e);
                                },
                            }
                        },
                        None => {
                            proof {
                                assert(forall|a: int|
                                    0 <= a < raws_v.len() ==> (#[trigger] raws_v[a]).0
                                        != fs_v[i as int].0);
                                lemma_assoc_get_none(raws_v, fs_v[i as int].0);
                            }
                            if matches!(&fs[i].1, Type::Option(_)) {
                                Value::Null
                            } else {
                                return Err(template_to_error(invalid_type(), position.dup()));
                            }
                        },
                    };
                    let ghost head_v = value_v(head);
                    proof {
                        assert(match assoc_get(raws_v, fs_v[i as int].0) {
                            Option::Some(rv) => spec_coerce_raw(fs_v[i as int].1, rv)
                                == Result::<ValueV, u32>::Ok(head_v),
                            Option::None => fs_v[i as int].1 is Opt && head_v == ValueV::Null,
                        });
                    }
                    let key = fs[i].0.clone();
                    let ghost out0 = out@;
                    proof {
                        lemma_value_fields_v_push(out0, (key, head));
                    }
                    out.push((key, head));
                    proof {
                        assert(value_fields_v(out@) == value_fields_v(out0).push(
                            (fs_v[i as int].0, head_v),
                        ));
                        if spec_coerce_fields(fs_v.skip(i + 1 as int), raws_v) is Ok {
                            let rest = spec_coerce_fields(fs_v.skip(i + 1 as int), raws_v)->Ok_0;
                            assert(value_fields_v(out@) + rest =~= value_fields_v(out0) + (seq![
                                (fs_v[i as int].0, head_v),
                            ] + rest));
                        }
                    }
                    i += 1;
                }
                proof {
                    assert(fs_v.skip(fn_ as int) =~= Seq::<(Seq<char>, TypeV)>::empty());
                    assert(value_fields_v(out@) + Seq::<(Seq<char>, ValueV)>::empty()
                        =~= value_fields_v(out@));
                }
                Ok(Value::Struct(out))
            },
            _ => Err(template_to_error(invalid_type(), position.dup())),
        },
        _ => match v {
            ParsedValue::Value(s) => match parse_value(t, s) {
                Ok(val) => Ok(val),
                Err(tmpl) => Err(template_to_error(tmpl, position.dup())),
            },
            _ => Err(template_to_error(invalid_type(), position.dup())),
        },
    }
}

} // verus!
