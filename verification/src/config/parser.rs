use vstd::prelude::*;

verus! {

use crate::config::ast::{Config, Settings, Var};
use crate::config::error::{ErrorKind, ParserError, ParserErrorV, csperr, equal_required,
    invalid_equal, invalid_left_curly_position, invalid_setting, invalid_syntax_in_settings,
    invalid_syntax_outside, invalid_type, must_in_vars_block, settings_and_vars_required,
    settings_closed, template_to_error};
use crate::config::token::{CTokV, Token, TokenV, Value as TokValue, toks_types_wf};
use crate::config::lexer::toks_v;
use crate::config::vars::parse_vars;
use crate::types::{Position, Type, type_v, type_wf};

/// The settings-value shape: a double-quoted literal, with the quotes
/// stripped.
pub open spec fn spec_quoted(v: Seq<char>) -> bool {
    v.len() >= 2 && v[0] == '"' && v[v.len() - 1] == '"'
}

/// The grammar of the `settings { }` block, from `i` just past the
/// keyword, with the block/equal flags, the pending key and value, and
/// the path set so far: `ident = "string";` statements of which only
/// `envl_file_path` is a recognized key; `}` closes; end of input means
/// the block never closed.
pub open spec fn spec_parse_settings(
    toks: Seq<TokenV>,
    i: int,
    in_block: bool,
    equal_used: bool,
    prop: Option<Seq<char>>,
    val: Option<Seq<char>>,
    efp: Option<Seq<char>>,
) -> Result<(Option<Seq<char>>, int), ParserErrorV>
    decreases toks.len() - i,
{
    if i < 0 || i >= toks.len() {
        Result::Err(
            csperr(ErrorKind::SyntaxError, 14, "Settings is not closed"@, toks[i - 1].position),
        )
    } else {
        let t = toks[i];
        match t.value {
            CTokV::LeftCurlyBracket => if in_block {
                Result::Err(
                    csperr(
                        ErrorKind::SyntaxError,
                        1,
                        "Position of the { is invalid"@,
                        t.position,
                    ),
                )
            } else {
                spec_parse_settings(toks, i + 1, true, equal_used, prop, val, efp)
            },
            CTokV::RightCurlyBracket => Result::Ok((efp, i + 1)),
            CTokV::Comment(_) => spec_parse_settings(
                toks,
                i + 1,
                in_block,
                equal_used,
                prop,
                val,
                efp,
            ),
            _ => if !in_block {
                Result::Err(
                    csperr(
                        ErrorKind::SyntaxError,
                        4,
                        "To use this syntax, you must be inside a vars block"@,
                        t.position,
                    ),
                )
            } else {
                match t.value {
                    CTokV::Equal => if equal_used || prop is None {
                        Result::Err(
                            csperr(
                                ErrorKind::SyntaxError,
                                16,
                                "Invalid equal position"@,
                                t.position,
                            ),
                        )
                    } else {
                        spec_parse_settings(toks, i + 1, in_block, true, prop, val, efp)
                    },
                    CTokV::Semi => if prop is Some && val is Some {
                        if !equal_used {
                            Result::Err(
                                csperr(
                                    ErrorKind::SyntaxError,
                                    17,
                                    "Equal is required"@,
                                    t.position,
                                ),
                            )
                        } else if prop->0 == "envl_file_path"@ {
                            if spec_quoted(val->0) {
                                spec_parse_settings(
                                    toks,
                                    i + 1,
                                    in_block,
                                    false,
                                    Option::None,
                                    Option::None,
                                    Option::Some(val->0.subrange(1, val->0.len() - 1)),
                                )
                            } else {
                                Result::Err(
                                    csperr(
                                        ErrorKind::InvalidType,
                                        18,
                                        "Invalid type"@,
                                        t.position,
                                    ),
                                )
                            }
                        } else {
                            Result::Err(
                                csperr(
                                    ErrorKind::SyntaxError,
                                    18,
                                    "Invalid setting property"@,
                                    t.position,
                                ),
                            )
                        }
                    } else {
                        Result::Err(
                            csperr(
                                ErrorKind::SyntaxError,
                                15,
                                "That syntax cannot be used within a settings block"@,
                                t.position,
                            ),
                        )
                    },
                    CTokV::Ident(text) => if prop is Some {
                        spec_parse_settings(
                            toks,
                            i + 1,
                            in_block,
                            equal_used,
                            prop,
                            Option::Some(text),
                            efp,
                        )
                    } else {
                        spec_parse_settings(
                            toks,
                            i + 1,
                            in_block,
                            equal_used,
                            Option::Some(text),
                            val,
                            efp,
                        )
                    },
                    _ => Result::Err(
                        csperr(
                            ErrorKind::SyntaxError,
                            15,
                            "That syntax cannot be used within a settings block"@,
                            t.position,
                        ),
                    ),
                }
            },
        }
    }
}

/// The grammar of a whole schema: any interleaving of one `settings { }`
/// block and one `vars { }` block (a repeated block replaces the earlier
/// one), comments anywhere; any other top-level token is refused; at end
/// of input both blocks must have appeared.
pub open spec fn spec_parse_config(
    toks: Seq<TokenV>,
    i: int,
    vars_opt: Option<Seq<(Seq<char>, crate::config::ast::VarV)>>,
    settings_opt: Option<Option<Seq<char>>>,
    file: Seq<char>,
) -> Result<
    (Option<Seq<char>>, Seq<(Seq<char>, crate::config::ast::VarV)>),
    ParserErrorV,
>
    decreases toks.len() - i, 1int,
{
    if i < 0 || i >= toks.len() {
        match (vars_opt, settings_opt) {
            (Option::Some(vs), Option::Some(st)) => Result::Ok((st, vs)),
            _ => Result::Err(
                csperr(
                    ErrorKind::SyntaxError,
                    3,
                    "Settings and vars is required"@,
                    crate::types::PositionV { file_path: file, row: 0, col: 0 },
                ),
            ),
        }
    } else {
        let t = toks[i];
        match t.value {
            CTokV::Vars => match crate::config::vars::spec_parse_vars(
                toks,
                i + 1,
                false,
                false,
                false,
                Option::None,
                Option::None,
                Seq::empty(),
            ) {
                Result::Ok(p) => spec_parse_config(
                    toks,
                    crate::vars::parser::adv(i, p.1, toks.len() as int),
                    Option::Some(p.0),
                    settings_opt,
                    file,
                ),
                Result::Err(e) => Result::Err(e),
            },
            CTokV::Settings => match spec_parse_settings(
                toks,
                i + 1,
                false,
                false,
                Option::None,
                Option::None,
                Option::None,
            ) {
                Result::Ok(p) => spec_parse_config(
                    toks,
                    crate::vars::parser::adv(i, p.1, toks.len() as int),
                    vars_opt,
                    Option::Some(p.0),
                    file,
                ),
                Result::Err(e) => Result::Err(e),
            },
            CTokV::Comment(_) => spec_parse_config(
                toks,
                i + 1,
                vars_opt,
                settings_opt,
                file,
            ),
            _ => Result::Err(
                csperr(
                    ErrorKind::SyntaxError,
                    13,
                    "Can't use this syntax outside of the vars and settings blocks"@,
                    t.position,
                ),
            ),
        }
    }
}

/// The schema parser over a lexed token stream.
pub struct Parser {
    pub file_path: String,
    pub tokens: Vec<Token>,
}

impl Parser {
    pub fn new(file_path: String, tokens: Vec<Token>) -> (r: Parser)
        ensures
            r.file_path@ == file_path@,
            r.tokens@ == tokens@,
    {
        Parser { file_path, tokens }
    }

    /// Strips the double quotes off a settings value; anything unquoted is
    /// no settings string.
    pub fn parse_string(&self, value: &String, position: &Position) -> (r: Result<
        String,
        ParserError,
    >)
        ensures
            match r {
                Result::Ok(s) => value@.len() >= 2 && value@[0] == '"' && value@[value@.len()
                    - 1] == '"' && s@ == value@.subrange(1, value@.len() - 1),
                Result::Err(e) => !(value@.len() >= 2 && value@[0] == '"' && value@[value@.len()
                    - 1] == '"') && e@ == csperr(
                    ErrorKind::InvalidType,
                    18,
                    "Invalid type"@,
                    position@,
                ),
            },
    {
        let s = value.as_str();
        let n = s.unicode_len();
        if n >= 2 && s.get_char(0) == '"' && s.get_char(n - 1) == '"' {
            Ok(s.substring_char(1, n - 1).to_owned())
        } else {
            Err(template_to_error(invalid_type(), position.dup()))
        }
    }

    /// Parses the `settings { }` block from `i`, the index just past the
    /// `settings` keyword, exactly as `spec_parse_settings` says:
    /// `ident = "string";` statements, of which only `envl_file_path` is a
    /// recognized key.
    pub fn parse_settings(&self, toks: &Vec<Token>, i: usize) -> (r: Result<
        (Settings, usize),
        ParserError,
    >)
        requires
            1 <= i <= toks@.len(),
        ensures
            match r {
                Result::Ok(p) => i < p.1 <= toks@.len(),
                Result::Err(_) => true,
            },
            ({
                let sp = spec_parse_settings(
                    toks_v(toks@),
                    i as int,
                    false,
                    false,
                    Option::None,
                    Option::None,
                    Option::None,
                );
                match r {
                    Result::Ok(p) => sp == Result::<
                        (Option<Seq<char>>, int),
                        ParserErrorV,
                    >::Ok(
                        (
                            match p.0.envl_file_path {
                                Option::Some(s) => Option::Some(s@),
                                Option::None => Option::None,
                            },
                            p.1 as int,
                        ),
                    ),
                    Result::Err(e) => sp == Result::<
                        (Option<Seq<char>>, int),
                        ParserErrorV,
                    >::Err(e@),
                }
            }),
        decreases toks@.len() - i,
    {
        let ghost tv = toks_v(toks@);
        proof {
            assert(forall|k: int| 0 <= k < toks@.len() ==> #[trigger] tv[k] == toks@[k]@);
        }
        let mut in_block = false;
        let mut equal_used = false;
        let mut target_prop: Option<String> = None;
        let mut target_value: Option<String> = None;
        let mut settings = Settings { envl_file_path: None };
        let mut j = i;
        loop
            invariant
                1 <= i <= j <= toks@.len(),
                tv == toks_v(toks@),
                tv.len() == toks@.len(),
                forall|k: int| 0 <= k < toks@.len() ==> #[trigger] tv[k] == toks@[k]@,
                spec_parse_settings(
                    tv,
                    i as int,
                    false,
                    false,
                    Option::None,
                    Option::None,
                    Option::None,
                ) == spec_parse_settings(
                    tv,
                    j as int,
                    in_block,
                    equal_used,
                    match target_prop {
                        Option::Some(p) => Option::Some(p@),
                        Option::None => Option::None,
                    },
                    match target_value {
                        Option::Some(v) => Option::Some(v@),
                        Option::None => Option::None,
                    },
                    match settings.envl_file_path {
                        Option::Some(s) => Option::Some(s@),
                        Option::None => Option::None,
                    },
                ),
            decreases toks@.len() - j,
        {
            let ghost propv: Option<Seq<char>> = match &target_prop {
                Option::Some(p) => Option::Some(p@),
                Option::None => Option::None,
            };
            let ghost valv: Option<Seq<char>> = match &target_value {
                Option::Some(v) => Option::Some(v@),
                Option::None => Option::None,
            };
            let ghost efpv: Option<Seq<char>> = match &settings.envl_file_path {
                Option::Some(s) => Option::Some(s@),
                Option::None => Option::None,
            };
            if j >= toks.len() {
                let e = template_to_error(settings_closed(), toks[j - 1].position.dup());
                proof {
                    assert(spec_parse_settings(tv, j as int, in_block, equal_used, propv, valv,
                        efpv) == Result::<(Option<Seq<char>>, int), ParserErrorV>::Err(e@));
                }
                return Err(e);
            }
            proof {
                assert(tv[j as int] == toks@[j as int]@);
            }
            match &toks[j].value {
                TokValue::LeftCurlyBracket => {
                    if in_block {
                        let e = template_to_error(
                            invalid_left_curly_position(),
                            toks[j].position.dup(),
                        );
                        proof {
                            assert(spec_parse_settings(tv, j as int, in_block, equal_used, propv,
                                valv, efpv) == Result::<
                                (Option<Seq<char>>, int),
                                ParserErrorV,
                            >::Err(e@));
                        }
                        return Err(e);
                    }
                    in_block = true;
                    j = j + 1;
                },
                TokValue::RightCurlyBracket => {
                    return Ok((settings, j + 1));
                },
                TokValue::Comment(_) => {
                    j = j + 1;
                },
                _ => {
                    if !in_block {
                        let e = template_to_error(must_in_vars_block(), toks[j].position.dup());
                        proof {
                            assert(spec_parse_settings(tv, j as int, in_block, equal_used, propv,
                                valv, efpv) == Result::<
                                (Option<Seq<char>>, int),
                                ParserErrorV,
                            >::Err(e@));
                        }
                        return Err(e);
                    }
                    match &toks[j].value {
                        TokValue::Equal => {
                            if equal_used || target_prop.is_none() {
                                let e = template_to_error(
                                    invalid_equal(),
                                    toks[j].position.dup(),
                                );
                                proof {
                                    assert(spec_parse_settings(tv, j as int, in_block, equal_used,
                                        propv, valv, efpv) == Result::<
                                        (Option<Seq<char>>, int),
                                        ParserErrorV,
                                    >::Err(e@));
                                }
                                return Err(e);
                            }
                            equal_used = true;
                            j = j + 1;
                        },
                        TokValue::Semi => {
                            if target_prop.is_some() && target_value.is_some() {
                                if !equal_used {
                                    let e = template_to_error(
                                        equal_required(),
                                        toks[j].position.dup(),
                                    );
                                    proof {
                                        assert(spec_parse_settings(tv, j as int, in_block,
                                            equal_used, propv, valv, efpv) == Result::<
                                            (Option<Seq<char>>, int),
                                            ParserErrorV,
                                        >::Err(e@));
                                    }
                                    return Err(e);
                                }
                                let is_efp = match &target_prop {
                                    Some(prop) => *prop == String::from_str("envl_file_path"),
                                    None => false,
                                };
                                if is_efp {
                                    let path = match &target_value {
                                        Some(value) => {
                                            match self.parse_string(value, &toks[j].position) {
                                                Ok(path) => path,
                                                Err(e) => {
                                                    proof {
                                                        assert(spec_parse_settings(tv, j as int,
                                                            in_block, equal_used, propv, valv,
                                                            efpv) == Result::<
                                                            (Option<Seq<char>>, int),
                                                            ParserErrorV,
                                                        >::Err(e@));
                                                    }
                                                    return Err(e);
                                                },
                                            }
                                        },
                                        None => {
                                            let e = template_to_error(
                                                invalid_syntax_in_settings(),
                                                toks[j].position.dup(),
                                            );
                                            return Err(e);
                                        },
                                    };
                                    settings.envl_file_path = Some(path);
                                } else {
                                    let e = template_to_error(
                                        invalid_setting(),
                                        toks[j].position.dup(),
                                    );
                                    proof {
                                        assert(spec_parse_settings(tv, j as int, in_block,
                                            equal_used, propv, valv, efpv) == Result::<
                                            (Option<Seq<char>>, int),
                                            ParserErrorV,
                                        >::Err(e@));
                                    }
                                    return Err(e);
                                }
                                target_prop = None;
                                target_value = None;
                                equal_used = false;
                                j = j + 1;
                            } else {
                                let e = template_to_error(
                                    invalid_syntax_in_settings(),
                                    toks[j].position.dup(),
                                );
                                proof {
                                    assert(spec_parse_settings(tv, j as int, in_block, equal_used,
                                        propv, valv, efpv) == Result::<
                                        (Option<Seq<char>>, int),
                                        ParserErrorV,
                                    >::Err(e@));
                                }
                                return Err(e);
                            }
                        },
                        TokValue::Ident(text) => {
                            if target_prop.is_some() {
                                target_value = Some(text.clone());
                            } else {
                                target_prop = Some(text.clone());
                            }
                            j = j + 1;
                        },
                        _ => {
                            let e = template_to_error(
                                invalid_syntax_in_settings(),
                                toks[j].position.dup(),
                            );
                            proof {
                                assert(spec_parse_settings(tv, j as int, in_block, equal_used,
                                    propv, valv, efpv) == Result::<
                                    (Option<Seq<char>>, int),
                                    ParserErrorV,
                                >::Err(e@));
                            }
                            return Err(e);
                        },
                    }
                },
            }
        }
    }

    /// Parses a whole schema, exactly as `spec_parse_config` says: one
    /// `settings { }` block and one `vars { }` block, in either order; a
    /// text missing either block is refused. On success the declared names
    /// are unique, and well-typed token streams give well-formed declared
    /// types.
    pub fn parse(&self) -> (r: Result<Config, ParserError>)
        ensures
            match r {
                Result::Ok(c) => (forall|a: int, b: int|
                    #![trigger c.vars@[a], c.vars@[b]]
                    0 <= a < b < c.vars@.len() ==> c.vars@[a].0@ != c.vars@[b].0@) && (
                toks_types_wf(toks_v(self.tokens@)) ==> forall|k: int|
                    0 <= k < c.vars@.len() ==> type_wf(type_v((#[trigger] c.vars@[k]).1.v_type)))
                    && (exists|k: int|
                    0 <= k < self.tokens@.len() && (#[trigger] self.tokens@[k]).value is Vars)
                    && (exists|k: int|
                    0 <= k < self.tokens@.len() && (#[trigger] self.tokens@[k]).value is Settings),
                Result::Err(_) => true,
            },
            self.tokens@.len() == 0 ==> r is Err && r->Err_0.code == 3 && r->Err_0.kind
                == crate::config::error::ErrorKind::SyntaxError,
            ({
                let sp = spec_parse_config(
                    toks_v(self.tokens@),
                    0,
                    Option::None,
                    Option::None,
                    self.file_path@,
                );
                match r {
                    Result::Ok(c) => sp == Result::<
                        (Option<Seq<char>>, Seq<(Seq<char>, crate::config::ast::VarV)>),
                        ParserErrorV,
                    >::Ok(
                        (
                            match c.settings.envl_file_path {
                                Option::Some(s) => Option::Some(s@),
                                Option::None => Option::None,
                            },
                            crate::config::vars::cvars_v(c.vars@),
                        ),
                    ),
                    Result::Err(e) => sp == Result::<
                        (Option<Seq<char>>, Seq<(Seq<char>, crate::config::ast::VarV)>),
                        ParserErrorV,
                    >::Err(e@),
                }
            }),
    {
        let ghost tv = toks_v(self.tokens@);
        let ghost f = self.file_path@;
        proof {
            assert(forall|k: int|
                0 <= k < self.tokens@.len() ==> #[trigger] tv[k] == self.tokens@[k]@);
        }
        let toks = &self.tokens;
        let mut vars_opt: Option<Vec<(String, Var)>> = None;
        let mut settings_opt: Option<Settings> = None;
        let mut j: usize = 0;
        while j < toks.len()
            invariant
                toks@ == self.tokens@,
                f == self.file_path@,
                tv == toks_v(self.tokens@),
                tv.len() == self.tokens@.len(),
                forall|k: int|
                    0 <= k < self.tokens@.len() ==> #[trigger] tv[k] == self.tokens@[k]@,
                0 <= j <= toks@.len(),
                match vars_opt {
                    Option::Some(vs) => ((forall|a: int, b: int|
                        #![trigger vs@[a], vs@[b]]
                        0 <= a < b < vs@.len() ==> vs@[a].0@ != vs@[b].0@) && (toks_types_wf(
                        toks_v(toks@),
                    ) ==> forall|k: int|
                        0 <= k < vs@.len() ==> type_wf(type_v((#[trigger] vs@[k]).1.v_type)))
                        && (exists|k: int|
                        0 <= k < toks@.len() && (#[trigger] toks@[k]).value is Vars)),
                    Option::None => true,
                },
                settings_opt is Some ==> exists|k: int|
                    0 <= k < toks@.len() && (#[trigger] toks@[k]).value is Settings,
                spec_parse_config(tv, 0, Option::None, Option::None, f) == spec_parse_config(
                    tv,
                    j as int,
                    match vars_opt {
                        Option::Some(vs) => Option::Some(crate::config::vars::cvars_v(vs@)),
                        Option::None => Option::None,
                    },
                    match settings_opt {
                        Option::Some(st) => Option::Some(
                            match st.envl_file_path {
                                Option::Some(sp) => Option::Some(sp@),
                                Option::None => Option::None,
                            },
                        ),
                        Option::None => Option::None,
                    },
                    f,
                ),
            decreases toks@.len() - j,
        {
            let ghost j0 = j as int;
            let ghost vo0: Option<Seq<(Seq<char>, crate::config::ast::VarV)>> = match &vars_opt {
                Option::Some(vs) => Option::Some(crate::config::vars::cvars_v(vs@)),
                Option::None => Option::None,
            };
            let ghost so0: Option<Option<Seq<char>>> = match &settings_opt {
                Option::Some(st) => Option::Some(
                    match &st.envl_file_path {
                        Option::Some(sp) => Option::Some(sp@),
                        Option::None => Option::None,
                    },
                ),
                Option::None => Option::None,
            };
            proof {
                assert(tv[j0] == toks@[j0]@);
            }
            match &toks[j].value {
                TokValue::Vars => {
                    match parse_vars(toks, j + 1) {
                        Ok(p) => {
                            let (vs, j2) = p;
                            proof {
                                assert(crate::vars::parser::adv(j0, j2 as int, tv.len() as int)
                                    == j2 as int);
                            }
                            vars_opt = Some(vs);
                            j = j2;
                        },
                        Err(e) => {
                            proof {
                                assert(spec_parse_config(tv, j0, vo0, so0, f) == Result::<
                                    (
                                        Option<Seq<char>>,
                                        Seq<(Seq<char>, crate::config::ast::VarV)>,
                                    ),
                                    ParserErrorV,
                                >::Err(e@));
                                assert(self.tokens@.len() > 0);
                            }
                            return Err(e);
                        },
                    }
                },
                TokValue::Settings => {
                    match self.parse_settings(toks, j + 1) {
                        Ok(p) => {
                            let (st, j2) = p;
                            proof {
                                assert(crate::vars::parser::adv(j0, j2 as int, tv.len() as int)
                                    == j2 as int);
                            }
                            settings_opt = Some(st);
                            j = j2;
                        },
                        Err(e) => {
                            proof {
                                assert(spec_parse_config(tv, j0, vo0, so0, f) == Result::<
                                    (
                                        Option<Seq<char>>,
                                        Seq<(Seq<char>, crate::config::ast::VarV)>,
                                    ),
                                    ParserErrorV,
                                >::Err(e@));
                                assert(self.tokens@.len() > 0);
                            }
                            return Err(e);
                        },
                    }
                },
                TokValue::Comment(_) => {
                    j = j + 1;
                },
                _ => {
                    let e = template_to_error(
                        invalid_syntax_outside(),
                        toks[j].position.dup(),
                    );
                    proof {
                        assert(spec_parse_config(tv, j0, vo0, so0, f) == Result::<
                            (Option<Seq<char>>, Seq<(Seq<char>, crate::config::ast::VarV)>),
                            ParserErrorV,
                        >::Err(e@));
                    }
                    return Err(e);
                },
            }
        }
        match (vars_opt, settings_opt) {
            (Some(vars), Some(settings)) => Ok(Config { settings, vars }),
            _ => {
                let e = template_to_error(
                    settings_and_vars_required(),
                    Position { file_path: self.file_path.clone(), row: 0, col: 0 },
                );
                return Err(e);
            },
        }
    }
}

} // verus!
