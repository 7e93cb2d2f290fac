use vstd::prelude::*;

verus! {

use crate::strutil::{bump, chars_to_string, spec_bump};
use crate::types::{Position, PositionV, Type, TypeV};
use crate::config::token::{CTokV, Token, TokenV, Value};

/// The schema lexer state: current position, quote/escape/comment flags,
/// the accumulator with the position of its first character, and the
/// tokens emitted so far.
pub ghost struct LexSt {
    pub row: int,
    pub col: int,
    pub in_quote: bool,
    pub qc: char,
    pub q_row: int,
    pub q_col: int,
    pub in_comment: bool,
    pub escape: bool,
    pub acc: Seq<char>,
    pub acc_row: int,
    pub acc_col: int,
    pub toks: Seq<TokenV>,
}

pub open spec fn init_st() -> LexSt {
    LexSt {
        row: 1,
        col: 0,
        in_quote: false,
        qc: '"',
        q_row: 0,
        q_col: 0,
        in_comment: false,
        escape: false,
        acc: Seq::empty(),
        acc_row: 0,
        acc_col: 0,
        toks: Seq::empty(),
    }
}

pub open spec fn spec_pos(file: Seq<char>, row: int, col: int) -> PositionV {
    PositionV { file_path: file, row: row, col: col }
}

/// What an escape character stands for: `n`, `t`, `r`, `0` map to their
/// control characters, anything else passes through.
pub open spec fn spec_esc(c: char) -> char {
    if c == 'n' {
        '\n'
    } else if c == 't' {
        '\t'
    } else if c == 'r' {
        '\r'
    } else if c == '0' {
        '\0'
    } else {
        c
    }
}

/// The ASCII white-space characters that flush the accumulator (the
/// newline is handled separately, as it also advances the row). Non-ASCII
/// white space is treated as identifier text.
pub open spec fn spec_is_space(c: char) -> bool {
    c == ' ' || c == '\t' || c == '\r' || c == '\u{b}' || c == '\u{c}'
}

/// The single-character structural tokens of the schema grammar.
pub open spec fn spec_structural(c: char) -> Option<CTokV> {
    if c == ';' {
        Option::Some(CTokV::Semi)
    } else if c == '=' {
        Option::Some(CTokV::Equal)
    } else if c == '[' {
        Option::Some(CTokV::LeftSquareBracket)
    } else if c == ']' {
        Option::Some(CTokV::RightSquareBracket)
    } else if c == '{' {
        Option::Some(CTokV::LeftCurlyBracket)
    } else if c == '}' {
        Option::Some(CTokV::RightCurlyBracket)
    } else if c == '(' {
        Option::Some(CTokV::LeftParentheses)
    } else if c == ')' {
        Option::Some(CTokV::RightParentheses)
    } else if c == '<' {
        Option::Some(CTokV::LeftShift)
    } else if c == '>' {
        Option::Some(CTokV::RightShift)
    } else if c == ',' {
        Option::Some(CTokV::Comma)
    } else if c == ':' {
        Option::Some(CTokV::Colon)
    } else {
        Option::None
    }
}

/// What a flushed accumulator stands for: a keyword, a primitive type
/// name, or a plain identifier.
pub open spec fn spec_kw(acc: Seq<char>) -> CTokV {
    if acc == "settings"@ {
        CTokV::Settings
    } else if acc == "vars"@ {
        CTokV::Vars
    } else if acc == "struct"@ {
        CTokV::Struct
    } else if acc == "array"@ {
        CTokV::Array
    } else if acc == "option"@ {
        CTokV::Option
    } else if acc == "null"@ {
        CTokV::Null
    } else if acc == "string"@ {
        CTokV::Type(TypeV::Str)
    } else if acc == "char"@ {
        CTokV::Type(TypeV::Chr)
    } else if acc == "float"@ {
        CTokV::Type(TypeV::Flt)
    } else if acc == "int"@ {
        CTokV::Type(TypeV::Int)
    } else if acc == "uint"@ {
        CTokV::Type(TypeV::Uint)
    } else if acc == "bool"@ {
        CTokV::Type(TypeV::Bool)
    } else {
        CTokV::Ident(acc)
    }
}

/// Emits the accumulator as a keyword or identifier token, if non-empty.
pub open spec fn spec_flush(file: Seq<char>, st: LexSt) -> LexSt {
    if st.acc.len() > 0 {
        LexSt {
            acc: Seq::empty(),
            toks: st.toks.push(
                TokenV { value: spec_kw(st.acc), position: spec_pos(file, st.acc_row, st.acc_col) },
            ),
            ..st
        }
    } else {
        st
    }
}

/// One step of the schema lexer on character `c`.
pub open spec fn spec_step(file: Seq<char>, st: LexSt, c: char) -> LexSt {
    if st.in_comment {
        if c == '\n' {
            LexSt {
                row: spec_bump(st.row),
                col: 0,
                in_comment: false,
                acc: Seq::empty(),
                toks: st.toks.push(
                    TokenV {
                        value: CTokV::Comment(st.acc),
                        position: spec_pos(file, st.acc_row, st.acc_col),
                    },
                ),
                ..st
            }
        } else {
            LexSt { col: spec_bump(st.col), acc: st.acc.push(c), ..st }
        }
    } else if c == '\n' {
        if st.in_quote {
            LexSt { row: spec_bump(st.row), col: 0, ..st }
        } else {
            let st1 = spec_flush(file, st);
            LexSt { row: spec_bump(st1.row), col: 0, ..st1 }
        }
    } else if st.in_quote {
        let col1 = spec_bump(st.col);
        if st.escape {
            LexSt { col: col1, escape: false, acc: st.acc.push(spec_esc(c)), ..st }
        } else if c == st.qc {
            LexSt {
                col: col1,
                in_quote: false,
                acc: Seq::empty(),
                toks: st.toks.push(
                    TokenV {
                        value: CTokV::Ident(seq![st.qc] + st.acc + seq![st.qc]),
                        position: spec_pos(file, st.q_row, st.q_col),
                    },
                ),
                ..st
            }
        } else if c == '\\' {
            LexSt { col: col1, escape: true, ..st }
        } else {
            LexSt { col: col1, acc: st.acc.push(c), ..st }
        }
    } else {
        let col1 = spec_bump(st.col);
        if c == '"' || c == '\'' {
            LexSt {
                col: col1,
                in_quote: true,
                qc: c,
                q_row: st.row,
                q_col: col1,
                acc: Seq::empty(),
                ..st
            }
        } else if c == '/' && st.acc.len() == 1 && st.acc[0] == '/' {
            LexSt { col: col1, in_comment: true, acc: Seq::empty(), ..st }
        } else if spec_structural(c) is Some {
            let st1 = spec_flush(file, st);
            LexSt {
                col: col1,
                toks: st1.toks.push(
                    TokenV {
                        value: spec_structural(c)->Some_0,
                        position: spec_pos(file, st.row, col1),
                    },
                ),
                ..st1
            }
        } else if spec_is_space(c) {
            let st1 = spec_flush(file, st);
            LexSt { col: col1, ..st1 }
        } else if st.acc.len() == 0 {
            LexSt { col: col1, acc: seq![c], acc_row: st.row, acc_col: col1, ..st }
        } else {
            LexSt { col: col1, acc: st.acc.push(c), ..st }
        }
    }
}

/// A pending comment is emitted at end of input; anything else pending is
/// dropped, as an unterminated run has no token.
pub open spec fn spec_finalize(file: Seq<char>, st: LexSt) -> Seq<TokenV> {
    if st.in_comment {
        st.toks.push(
            TokenV { value: CTokV::Comment(st.acc), position: spec_pos(file, st.acc_row, st.acc_col) },
        )
    } else {
        st.toks
    }
}

pub open spec fn spec_lex_from(file: Seq<char>, st: LexSt, s: Seq<char>) -> LexSt
    decreases s.len(),
{
    if s.len() == 0 {
        st
    } else {
        spec_lex_from(file, spec_step(file, st, s[0]), s.drop_first())
    }
}

/// The token sequence of a whole schema source text.
pub open spec fn spec_lex(file: Seq<char>, code: Seq<char>) -> Seq<TokenV> {
    spec_finalize(file, spec_lex_from(file, init_st(), code))
}

pub proof fn lemma_lex_from_snoc(file: Seq<char>, st: LexSt, s: Seq<char>, c: char)
    ensures
        spec_lex_from(file, st, s.push(c)) == spec_step(file, spec_lex_from(file, st, s), c),
    decreases s.len(),
{
    if s.len() == 0 {
        assert(s.push(c).drop_first() =~= s);
        assert(s.push(c)[0] == c);
        assert(spec_lex_from(file, st, s.push(c)) == spec_lex_from(
            file,
            spec_step(file, st, c),
            s,
        ));
        assert(spec_lex_from(file, spec_step(file, st, c), s) == spec_step(file, st, c));
        assert(spec_lex_from(file, st, s) == st);
    } else {
        assert(s.push(c).drop_first() =~= s.drop_first().push(c));
        assert(s.push(c)[0] == s[0]);
        lemma_lex_from_snoc(file, spec_step(file, st, s[0]), s.drop_first(), c);
        assert(spec_lex_from(file, st, s.push(c)) == spec_lex_from(
            file,
            spec_step(file, st, s[0]),
            s.drop_first().push(c),
        ));
        assert(spec_lex_from(file, st, s) == spec_lex_from(
            file,
            spec_step(file, st, s[0]),
            s.drop_first(),
        ));
    }
}

/// The models of a schema token vector.
pub open spec fn toks_v(ts: Seq<Token>) -> Seq<TokenV> {
    ts.map(|i: int, t: Token| t@)
}

pub proof fn lemma_step_types_wf(file: Seq<char>, st: LexSt, c: char)
    requires
        crate::config::token::toks_types_wf(st.toks),
    ensures
        crate::config::token::toks_types_wf(spec_step(file, st, c).toks),
{
    let st2 = spec_step(file, st, c);
    assert forall|k: int|
        0 <= k < st2.toks.len() && (#[trigger] st2.toks[k]).value is Type implies
        crate::types::type_wf(st2.toks[k].value->Type_0) by {
        if k < st.toks.len() {
            assert(st2.toks[k] == st.toks[k]);
        }
    };
}

/// The lexer's output only ever carries well-formed (primitive) type
/// payloads.
pub proof fn lemma_lex_from_types_wf(file: Seq<char>, st: LexSt, s: Seq<char>)
    requires
        crate::config::token::toks_types_wf(st.toks),
    ensures
        crate::config::token::toks_types_wf(spec_lex_from(file, st, s).toks),
    decreases s.len(),
{
    if s.len() > 0 {
        lemma_step_types_wf(file, st, s[0]);
        lemma_lex_from_types_wf(file, spec_step(file, st, s[0]), s.drop_first());
    }
}

pub proof fn lemma_lex_types_wf(file: Seq<char>, code: Seq<char>)
    ensures
        crate::config::token::toks_types_wf(spec_lex(file, code)),
{
    lemma_lex_from_types_wf(file, init_st(), code);
    let stf = spec_lex_from(file, init_st(), code);
    assert forall|k: int|
        0 <= k < spec_lex(file, code).len() && (#[trigger] spec_lex(file, code)[k]).value
        is Type implies crate::types::type_wf(spec_lex(file, code)[k].value->Type_0) by {
        if k < stf.toks.len() {
            assert(spec_lex(file, code)[k] == stf.toks[k]);
        }
    };
}

/// The state the lexer is in after the first `i` characters.
pub open spec fn st_at(file: Seq<char>, s: Seq<char>, i: int) -> LexSt {
    spec_lex_from(file, init_st(), s.take(i))
}

pub open spec fn st_matches(
    st: LexSt,
    row: int,
    col: int,
    in_quote: bool,
    qc: char,
    q_row: int,
    q_col: int,
    in_comment: bool,
    escape: bool,
    acc: Seq<char>,
    acc_row: int,
    acc_col: int,
    toks: Seq<TokenV>,
) -> bool {
    st.row == row && st.col == col && st.in_quote == in_quote && st.qc == qc && st.q_row == q_row
        && st.q_col == q_col && st.in_comment == in_comment && st.escape == escape && st.acc == acc
        && st.acc_row == acc_row && st.acc_col == acc_col && st.toks == toks
}

/// The schema lexer: one forward pass over the source text.
pub struct Lexer {
    pub file_path: String,
    pub code: String,
}

impl Lexer {
    pub fn new(file_path: String, code: String) -> (r: Lexer)
        ensures
            r.file_path@ == file_path@,
            r.code@ == code@,
    {
        Lexer { file_path, code }
    }

    /// Maps a flushed accumulator to its keyword or identifier token.
    fn kw_token(text: String) -> (r: Value)
        ensures
            r@ == spec_kw(text@),
    {
        if text == String::from_str("settings") {
            Value::Settings
        } else if text == String::from_str("vars") {
            Value::Vars
        } else if text == String::from_str("struct") {
            Value::Struct
        } else if text == String::from_str("array") {
            Value::Array
        } else if text == String::from_str("option") {
            Value::Option
        } else if text == String::from_str("null") {
            Value::Null
        } else if text == String::from_str("string") {
            Value::Type(Type::String)
        } else if text == String::from_str("char") {
            Value::Type(Type::Char)
        } else if text == String::from_str("float") {
            Value::Type(Type::Float)
        } else if text == String::from_str("int") {
            Value::Type(Type::Int)
        } else if text == String::from_str("uint") {
            Value::Type(Type::Uint)
        } else if text == String::from_str("bool") {
            Value::Type(Type::Bool)
        } else {
            Value::Ident(text)
        }
    }

    /// Tokenizes the source; the result is exactly the model lexer's output.
    pub fn generate(&self) -> (r: Vec<Token>)
        ensures
            toks_v(r@) == spec_lex(self.file_path@, self.code@),
    {
        let ghost f = self.file_path@;
        let ghost s = self.code@;
        let src = self.code.as_str();
        let n = src.unicode_len();

        let mut tokens: Vec<Token> = Vec::new();
        let mut row: usize = 1;
        let mut col: usize = 0;
        let mut in_quote = false;
        let mut qc: char = '"';
        let mut q_row: usize = 0;
        let mut q_col: usize = 0;
        let mut in_comment = false;
        let mut escape = false;
        let mut acc: Vec<char> = Vec::new();
        let mut acc_row: usize = 0;
        let mut acc_col: usize = 0;

        proof {
            assert(s.take(0) =~= Seq::<char>::empty());
            assert(st_at(f, s, 0) == init_st());
            assert(toks_v(tokens@) =~= Seq::<TokenV>::empty());
        }

        let mut i: usize = 0;
        while i < n
            invariant
                f == self.file_path@,
                s == self.code@,
                src@ == s,
                n == s.len(),
                0 <= i <= n,
                st_matches(
                    st_at(f, s, i as int),
                    row as int,
                    col as int,
                    in_quote,
                    qc,
                    q_row as int,
                    q_col as int,
                    in_comment,
                    escape,
                    acc@,
                    acc_row as int,
                    acc_col as int,
                    toks_v(tokens@),
                ),
            decreases n - i,
        {
            let ghost pre = st_at(f, s, i as int);
            let c = src.get_char(i);
            proof {
                assert(s.take(i + 1 as int) =~= s.take(i as int).push(s[i as int]));
                lemma_lex_from_snoc(f, init_st(), s.take(i as int), s[i as int]);
            }

            if in_comment {
                if c == '\n' {
                    let text = chars_to_string(&acc);
                    let t = Token {
                        value: Value::Comment(text),
                        position: Position {
                            file_path: self.file_path.clone(),
                            row: acc_row,
                            col: acc_col,
                        },
                    };
                    tokens.push(t);
                    acc.clear();
                    in_comment = false;
                    row = bump(row);
                    col = 0;
                    proof {
                        assert(toks_v(tokens@) =~= pre.toks.push(
                            TokenV {
                                value: CTokV::Comment(pre.acc),
                                position: spec_pos(f, pre.acc_row, pre.acc_col),
                            },
                        ));
                    }
                } else {
                    acc.push(c);
                    col = bump(col);
                }
            } else if c == '\n' {
                if in_quote {
                    row = bump(row);
                    col = 0;
                } else {
                    if acc.len() > 0 {
                        let text = chars_to_string(&acc);
                        let t = Token {
                            value: Self::kw_token(text),
                            position: Position {
                                file_path: self.file_path.clone(),
                                row: acc_row,
                                col: acc_col,
                            },
                        };
                        tokens.push(t);
                        acc.clear();
                        proof {
                            assert(toks_v(tokens@) =~= spec_flush(f, pre).toks);
                        }
                    }
                    row = bump(row);
                    col = 0;
                }
            } else if in_quote {
                col = bump(col);
                if escape {
                    let e = if c == 'n' {
                        '\n'
                    } else if c == 't' {
                        '\t'
                    } else if c == 'r' {
                        '\r'
                    } else if c == '0' {
                        '\0'
                    } else {
                        c
                    };
                    acc.push(e);
                    escape = false;
                } else if c == qc {
                    let mut quoted: Vec<char> = Vec::new();
                    quoted.push(qc);
                    quoted.append(&mut acc);
                    quoted.push(qc);
                    let text = chars_to_string(&quoted);
                    let t = Token {
                        value: Value::Ident(text),
                        position: Position {
                            file_path: self.file_path.clone(),
                            row: q_row,
                            col: q_col,
                        },
                    };
                    tokens.push(t);
                    in_quote = false;
                    proof {
                        assert(quoted@ =~= seq![pre.qc] + pre.acc + seq![pre.qc]);
                        assert(toks_v(tokens@) =~= pre.toks.push(
                            TokenV {
                                value: CTokV::Ident(seq![pre.qc] + pre.acc + seq![pre.qc]),
                                position: spec_pos(f, pre.q_row, pre.q_col),
                            },
                        ));
                    }
                } else if c == '\\' {
                    escape = true;
                } else {
                    acc.push(c);
                }
            } else {
                col = bump(col);
                let is_structural = c == ';' || c == '=' || c == '[' || c == ']' || c == '{' || c
                    == '}' || c == '(' || c == ')' || c == '<' || c == '>' || c == ',' || c == ':';
                if c == '"' || c == '\'' {
                    in_quote = true;
                    qc = c;
                    q_row = row;
                    q_col = col;
                    acc.clear();
                } else if c == '/' && acc.len() == 1 && acc[0] == '/' {
                    in_comment = true;
                    acc.clear();
                } else if is_structural {
                    if acc.len() > 0 {
                        let text = chars_to_string(&acc);
                        let t = Token {
                            value: Self::kw_token(text),
                            position: Position {
                                file_path: self.file_path.clone(),
                                row: acc_row,
                                col: acc_col,
                            },
                        };
                        tokens.push(t);
                        acc.clear();
                    }
                    let v = if c == ';' {
                        Value::Semi
                    } else if c == '=' {
                        Value::Equal
                    } else if c == '[' {
                        Value::LeftSquareBracket
                    } else if c == ']' {
                        Value::RightSquareBracket
                    } else if c == '{' {
                        Value::LeftCurlyBracket
                    } else if c == '}' {
                        Value::RightCurlyBracket
                    } else if c == '(' {
                        Value::LeftParentheses
                    } else if c == ')' {
                        Value::RightParentheses
                    } else if c == '<' {
                        Value::LeftShift
                    } else if c == '>' {
                        Value::RightShift
                    } else if c == ',' {
                        Value::Comma
                    } else {
                        Value::Colon
                    };
                    let t = Token {
                        value: v,
                        position: Position { file_path: self.file_path.clone(), row: row, col: col },
                    };
                    tokens.push(t);
                    proof {
                        let st1 = spec_flush(f, pre);
                        assert(toks_v(tokens@) =~= st1.toks.push(
                            TokenV {
                                value: spec_structural(s[i as int])->Some_0,
                                position: spec_pos(f, pre.row, spec_bump(pre.col)),
                            },
                        ));
                    }
                } else if c == ' ' || c == '\t' || c == '\r' || c == '\u{b}' || c == '\u{c}' {
                    if acc.len() > 0 {
                        let text = chars_to_string(&acc);
                        let t = Token {
                            value: Self::kw_token(text),
                            position: Position {
                                file_path: self.file_path.clone(),
                                row: acc_row,
                                col: acc_col,
                            },
                        };
                        tokens.push(t);
                        acc.clear();
                        proof {
                            assert(toks_v(tokens@) =~= spec_flush(f, pre).toks);
                        }
                    }
                } else {
                    if acc.len() == 0 {
                        acc_row = row;
                        acc_col = col;
                    }
                    acc.push(c);
                    proof {
                        if pre.acc.len() == 0 {
                            assert(acc@ =~= seq![s[i as int]]);
                        }
                    }
                }
            }
            i += 1;
        }

        proof {
            assert(s.take(n as int) =~= s);
        }

        if in_comment {
            let text = chars_to_string(&acc);
            let t = Token {
                value: Value::Comment(text),
                position: Position {
                    file_path: self.file_path.clone(),
                    row: acc_row,
                    col: acc_col,
                },
            };
            tokens.push(t);
            proof {
                let stf = st_at(f, s, n as int);
                assert(toks_v(tokens@) =~= stf.toks.push(
                    TokenV {
                        value: CTokV::Comment(stf.acc),
                        position: spec_pos(f, stf.acc_row, stf.acc_col),
                    },
                ));
            }
        }

        tokens
    }
}

} // verus!
