use vstd::prelude::*;

verus! {

broadcast use vstd::std_specs::vec::axiom_vec_index_decreases, vstd::std_specs::vec::axiom_vec_decreases_to_view, vstd::seq::axiom_seq_index_decreases, vstd::seq::axiom_seq_subrange_decreases;

use crate::liberror::EnvlLibError;
use crate::num::{i64_digits, spec_i64_text, spec_u64_digits, u64_digits};
use crate::strutil::chars_to_string;
use crate::types::{Type, TypeV, Value, ValueV, assoc_get, lemma_assoc_get_none,
    lemma_assoc_get_some, lemma_type_fields_v, lemma_value_fields_v, type_fields_v, type_v,
    value_fields_v, value_v};
use crate::unify::{VarData, VarDataV, VariableHashMap};

/// The target-language type expression for a declared type: primitives map
/// to their Rust names, arrays to `Vec`, options to `Option`, and a struct
/// to its generated record name `Struct<Path>`.
pub open spec fn spec_v_type_text(name: Seq<char>, t: TypeV) -> Seq<char>
    decreases t,
{
    match t {
        TypeV::Null => "None"@,
        TypeV::Str => "String"@,
        TypeV::Chr => "char"@,
        TypeV::Flt => "f64"@,
        TypeV::Int => "i64"@,
        TypeV::Uint => "u64"@,
        TypeV::Bool => "bool"@,
        TypeV::Array(et) => "Vec<"@ + spec_v_type_text(name, *et) + ">"@,
        TypeV::Opt(t0) => "Option<"@ + spec_v_type_text(name, *t0) + ">"@,
        TypeV::Struct(_) => "Struct"@ + name,
    }
}

/// The path piece a field contributes to a nested struct's name.
pub open spec fn spec_child_name(sname: Seq<char>, field: Seq<char>, ft: TypeV) -> Seq<char> {
    if ft is Struct {
        sname + field
    } else {
        field
    }
}

/// The record definition emitted for one struct type.
pub open spec fn spec_struct_def(sname: Seq<char>, fs: Seq<(Seq<char>, TypeV)>) -> Seq<char> {
    "#[derive(Debug, Clone, PartialEq)]\npub struct "@ + sname + " {\n"@
        + spec_struct_fields_text(sname, fs) + "}\n"@
}

pub open spec fn spec_struct_fields_text(sname: Seq<char>, fs: Seq<(Seq<char>, TypeV)>) -> Seq<
    char,
>
    decreases fs,
{
    if fs.len() == 0 {
        Seq::empty()
    } else {
        "    pub "@ + fs[0].0 + ": "@ + spec_v_type_text(
            spec_child_name(sname, fs[0].0, fs[0].1),
            fs[0].1,
        ) + ",\n"@ + spec_struct_fields_text(sname, fs.drop_first())
    }
}

/// All record definitions a declared type gives rise to, innermost first.
pub open spec fn spec_v_type_defs(name: Seq<char>, t: TypeV) -> Seq<char>
    decreases t,
{
    match t {
        TypeV::Array(et) => spec_v_type_defs(name, *et),
        TypeV::Opt(t0) => spec_v_type_defs(name, *t0),
        TypeV::Struct(fs) => spec_fields_defs("Struct"@ + name, fs) + spec_struct_def(
            "Struct"@ + name,
            fs,
        ),
        _ => Seq::empty(),
    }
}

pub open spec fn spec_fields_defs(sname: Seq<char>, fs: Seq<(Seq<char>, TypeV)>) -> Seq<char>
    decreases fs,
{
    if fs.len() == 0 {
        Seq::empty()
    } else {
        spec_v_type_defs(spec_child_name(sname, fs[0].0, fs[0].1), fs[0].1) + spec_fields_defs(
            sname,
            fs.drop_first(),
        )
    }
}

/// Emits the type expression for a declared type and appends the record
/// definitions it needs to `structs`, exactly as `spec_v_type_text` and
/// `spec_v_type_defs` say.
pub fn parse_v_type(v_name: String, v_type: &Type, structs: &mut String) -> (r: String)
    ensures
        r@ == spec_v_type_text(v_name@, type_v(*v_type)),
        final(structs)@ == old(structs)@ + spec_v_type_defs(v_name@, type_v(*v_type)),
    decreases v_type,
{
    match v_type {
        Type::Null => {
            proof {
                assert(old(structs)@ + Seq::<char>::empty() =~= old(structs)@);
            }
            String::from_str("None")
        },
        Type::String => {
            proof {
                assert(old(structs)@ + Seq::<char>::empty() =~= old(structs)@);
            }
            String::from_str("String")
        },
        Type::Char => {
            proof {
                assert(old(structs)@ + Seq::<char>::empty() =~= old(structs)@);
            }
            String::from_str("char")
        },
        Type::Float => {
            proof {
                assert(old(structs)@ + Seq::<char>::empty() =~= old(structs)@);
            }
            String::from_str("f64")
        },
        Type::Int => {
            proof {
                assert(old(structs)@ + Seq::<char>::empty() =~= old(structs)@);
            }
            String::from_str("i64")
        },
        Type::Uint => {
            proof {
                assert(old(structs)@ + Seq::<char>::empty() =~= old(structs)@);
            }
            String::from_str("u64")
        },
        Type::Bool => {
            proof {
                assert(old(structs)@ + Seq::<char>::empty() =~= old(structs)@);
            }
            String::from_str("bool")
        },
        Type::Array(et) => {
            let inner = parse_v_type(v_name, et, structs);
            let mut r = String::from_str("Vec<");
            r.append(inner.as_str());
            r.append(">");
            r
        },
        Type::Option(t0) => {
            let inner = parse_v_type(v_name, t0, structs);
            let mut r = String::from_str("Option<");
            r.append(inner.as_str());
            r.append(">");
            r
        },
        Type::Struct(fields) => {
            let ghost fs_v = type_fields_v(fields@);
            proof {
                lemma_type_fields_v(fields@);
            }
            let mut sname = String::from_str("Struct");
            sname.append(v_name.as_str());
            let ghost sname_v = "Struct"@ + v_name@;
            assert(sname@ == sname_v);

            let mut fields_text = String::new();
            let ghost structs0 = structs@;
            let n = fields.len();
            let mut k: usize = 0;
            proof {
                assert(fs_v.skip(0) =~= fs_v);
                assert(structs0 + Seq::<char>::empty() =~= structs0);
                assert(Seq::<char>::empty() + spec_struct_fields_text(sname_v, fs_v)
                    =~= spec_struct_fields_text(sname_v, fs_v));
            }
            while k < n
                invariant
                    *v_type == Type::Struct(*fields),
                    sname@ == sname_v,
                    sname_v == "Struct"@ + v_name@,
                    fs_v == type_fields_v(fields@),
                    fs_v.len() == fields@.len(),
                    forall|i: int|
                        0 <= i < fields@.len() ==> #[trigger] fs_v[i] == (
                            fields@[i].0@,
                            type_v(fields@[i].1),
                        ),
                    n == fields@.len(),
                    0 <= k <= n,
                    structs@ == structs0 + spec_fields_defs(sname_v, fs_v.take(k as int)),
                    fields_text@ == spec_struct_fields_text(sname_v, fs_v.take(k as int)),
                decreases n - k,
            {
                proof {
                    assert(decreases_to!(*v_type => v_type->Struct_0));
                }
                let ft = &fields[k].1;
                let child = if matches!(ft, Type::Struct(_)) {
                    let mut c = sname.clone();
                    c.append(fields[k].0.as_str());
                    c
                } else {
                    fields[k].0.clone()
                };
                proof {
                    assert(child@ == spec_child_name(sname_v, fs_v[k as int].0, fs_v[k as int].1));
                }
                let t_text = parse_v_type(child, ft, structs);
                fields_text.append("    pub ");
                fields_text.append(fields[k].0.as_str());
                fields_text.append(": ");
                fields_text.append(t_text.as_str());
                fields_text.append(",\n");
                proof {
                    assert(fs_v.take(k + 1 as int) =~= fs_v.take(k as int).push(fs_v[k as int]));
                    lemma_fields_defs_snoc(sname_v, fs_v.take(k as int), fs_v[k as int]);
                    lemma_fields_text_snoc(sname_v, fs_v.take(k as int), fs_v[k as int]);
                    assert(structs0 + spec_fields_defs(sname_v, fs_v.take(k + 1 as int)) =~= (
                    structs0 + spec_fields_defs(sname_v, fs_v.take(k as int))) + spec_v_type_defs(
                        spec_child_name(sname_v, fs_v[k as int].0, fs_v[k as int].1),
                        fs_v[k as int].1,
                    ));
                    assert(spec_struct_fields_text(sname_v, fs_v.take(k + 1 as int))
                        =~= spec_struct_fields_text(sname_v, fs_v.take(k as int)) + ("    pub "@
                        + fs_v[k as int].0 + ": "@ + spec_v_type_text(
                        spec_child_name(sname_v, fs_v[k as int].0, fs_v[k as int].1),
                        fs_v[k as int].1,
                    ) + ",\n"@));
                }
                k += 1;
            }
            proof {
                assert(fs_v.take(n as int) =~= fs_v);
            }
            let mut def = String::from_str("#[derive(Debug, Clone, PartialEq)]\npub struct ");
            def.append(sname.as_str());
            def.append(" {\n");
            def.append(fields_text.as_str());
            def.append("}\n");
            structs.append(def.as_str());
            sname
        },
    }
}

/// The values-grammar literal text of a leaf value: the quoted string or
/// character, the digit text of a number, or `true`/`false`.
pub open spec fn spec_value_literal(v: ValueV) -> Seq<char> {
    match v {
        ValueV::Str(s) => seq!['"'] + s + seq!['"'],
        ValueV::Chr(c) => seq!['\''] + seq![c] + seq!['\''],
        ValueV::Flt(s) => s,
        ValueV::Int(i) => spec_i64_text(i as int),
        ValueV::Uint(u) => spec_u64_digits(u as int),
        ValueV::Bool(b) => if b {
            "true"@
        } else {
            "false"@
        },
        _ => Seq::empty(),
    }
}

/// The target-language expression constructing a resolved value under its
/// declared type: `Null` renders as the absent marker, an option wraps its
/// present value, arrays render as sequence literals, structs as record
/// literals over the declared fields, and leaves as their literals (a
/// string wrapped in its constructor). A shape mismatch is the error.
pub open spec fn spec_gen_value(name: Seq<char>, t: TypeV, v: ValueV) -> Result<Seq<char>, ()>
    decreases t, v,
{
    if v is Null {
        Result::Ok("None"@)
    } else {
        match t {
            TypeV::Opt(t0) => match spec_gen_value(name, *t0, v) {
                Result::Ok(x) => Result::Ok("Some("@ + x + ")"@),
                Result::Err(e) => Result::Err(e),
            },
            TypeV::Array(et) => match v {
                ValueV::Array(vs) => match spec_gen_elems(name, *et, vs) {
                    Result::Ok(x) => Result::Ok("vec!["@ + x + "]"@),
                    Result::Err(e) => Result::Err(e),
                },
                _ => Result::Err(()),
            },
            TypeV::Struct(fs) => match v {
                ValueV::Struct(vfs) => match spec_gen_fields("Struct"@ + name, fs, vfs) {
                    Result::Ok(x) => Result::Ok(
                        "Struct"@ + name + " { "@ + x + " }"@,
                    ),
                    Result::Err(e) => Result::Err(e),
                },
                _ => Result::Err(()),
            },
            TypeV::Str => match v {
                ValueV::Str(_) => Result::Ok(
                    "String::from("@ + spec_value_literal(v) + ")"@,
                ),
                _ => Result::Err(()),
            },
            TypeV::Chr => match v {
                ValueV::Chr(_) => Result::Ok(spec_value_literal(v)),
                _ => Result::Err(()),
            },
            TypeV::Flt => match v {
                ValueV::Flt(_) => Result::Ok(spec_value_literal(v)),
                _ => Result::Err(()),
            },
            TypeV::Int => match v {
                ValueV::Int(_) => Result::Ok(spec_value_literal(v)),
                _ => Result::Err(()),
            },
            TypeV::Uint => match v {
                ValueV::Uint(_) => Result::Ok(spec_value_literal(v)),
                _ => Result::Err(()),
            },
            TypeV::Bool => match v {
                ValueV::Bool(_) => Result::Ok(spec_value_literal(v)),
                _ => Result::Err(()),
            },
            TypeV::Null => Result::Err(()),
        }
    }
}

pub open spec fn spec_gen_elems(name: Seq<char>, et: TypeV, vs: Seq<ValueV>) -> Result<
    Seq<char>,
    (),
>
    decreases et, vs,
{
    if vs.len() == 0 {
        Result::Ok(Seq::empty())
    } else {
        match spec_gen_value(name, et, vs[0]) {
            Result::Ok(h) => match spec_gen_elems(name, et, vs.drop_first()) {
                Result::Ok(rest) => Result::Ok(
                    if vs.len() == 1 {
                        h
                    } else {
                        h + ", "@ + rest
                    },
                ),
                Result::Err(e) => Result::Err(e),
            },
            Result::Err(e) => Result::Err(e),
        }
    }
}

pub open spec fn spec_gen_fields(
    sname: Seq<char>,
    fs: Seq<(Seq<char>, TypeV)>,
    vfs: Seq<(Seq<char>, ValueV)>,
) -> Result<Seq<char>, ()>
    decreases fs, vfs,
{
    if fs.len() == 0 {
        Result::Ok(Seq::empty())
    } else {
        let hv = match assoc_get(vfs, fs[0].0) {
            Option::Some(fv) => spec_gen_value(sname + fs[0].0, fs[0].1, fv),
            Option::None => Result::Err(()),
        };
        match hv {
            Result::Ok(h) => match spec_gen_fields(sname, fs.drop_first(), vfs) {
                Result::Ok(rest) => Result::Ok(
                    if fs.len() == 1 {
                        fs[0].0 + ": "@ + h
                    } else {
                        fs[0].0 + ": "@ + h + ", "@ + rest
                    },
                ),
                Result::Err(e) => Result::Err(e),
            },
            Result::Err(e) => Result::Err(e),
        }
    }
}

fn gen_error() -> (r: EnvlLibError)
    ensures
        true,
{
    EnvlLibError { message: String::from_str("Invalid Type") }
}

/// The literal text of one leaf value, exactly as `spec_value_literal`
/// says.
pub fn value_literal(v: &Value) -> (r: String)
    ensures
        r@ == spec_value_literal(value_v(*v)),
{
    match v {
        Value::String(s) => {
            let mut r = String::from_str("\"");
            r.append(s.as_str());
            r.append("\"");
            proof {
                reveal_strlit("\"");
                assert(r@ =~= seq!['"'] + s@ + seq!['"']);
            }
            r
        },
        Value::Char(c) => {
            let mut cs: Vec<char> = Vec::new();
            cs.push('\'');
            cs.push(*c);
            cs.push('\'');
            let r = chars_to_string(&cs);
            proof {
                assert(cs@ =~= seq!['\''] + seq![*c] + seq!['\'']);
            }
            r
        },
        Value::Float(s) => s.clone(),
        Value::Int(i) => {
            let ds = i64_digits(*i);
            chars_to_string(&ds)
        },
        Value::Uint(u) => {
            let ds = u64_digits(*u);
            chars_to_string(&ds)
        },
        Value::Bool(b) => {
            if *b {
                String::from_str("true")
            } else {
                String::from_str("false")
            }
        },
        _ => String::new(),
    }
}

/// Renders one resolved value as a target-language expression, exactly as
/// `spec_gen_value` says.
pub fn gen_value(name: &String, t: &Type, v: &Value) -> (r: Result<String, EnvlLibError>)
    ensures
        match r {
            Result::Ok(s) => spec_gen_value(name@, type_v(*t), value_v(*v)) == Result::<
                Seq<char>,
                (),
            >::Ok(s@),
            Result::Err(_) => spec_gen_value(name@, type_v(*t), value_v(*v)) is Err,
        },
    decreases t, v,
{
    if matches!(v, Value::Null) {
        return Ok(String::from_str("None"));
    }
    match t {
        Type::Option(t0) => {
            match gen_value(name, t0, v) {
                Ok(inner) => {
                    let mut r = String::from_str("Some(");
                    r.append(inner.as_str());
                    r.append(")");
                    Ok(r)
                },
                Err(e) => Err(e),
            }
        },
        Type::Array(bx) => match v {
            Value::Array(vs) => {
                match gen_array(name, bx, vs) {
                    Ok(joined) => {
                        let mut r = String::from_str("vec![");
                        r.append(joined.as_str());
                        r.append("]");
                        Ok(r)
                    },
                    Err(e) => Err(e),
                }
            },
            _ => Err(gen_error()),
        },
        Type::Struct(fs) => match v {
            Value::Struct(vfs) => {
                let mut sname = String::from_str("Struct");
                sname.append(name.as_str());
                match gen_struct(&sname, fs, vfs) {
                    Ok(joined) => {
                        let mut r = sname;
                        r.append(" { ");
                        r.append(joined.as_str());
                        r.append(" }");
                        Ok(r)
                    },
                    Err(e) => Err(e),
                }
            },
            _ => Err(gen_error()),
        },
        Type::String => match v {
            Value::String(_) => {
                let lit = value_literal(v);
                let mut r = String::from_str("String::from(");
                r.append(lit.as_str());
                r.append(")");
                Ok(r)
            },
            _ => Err(gen_error()),
        },
        Type::Char => match v {
            Value::Char(_) => Ok(value_literal(v)),
            _ => Err(gen_error()),
        },
        Type::Float => match v {
            Value::Float(_) => Ok(value_literal(v)),
            _ => Err(gen_error()),
        },
        Type::Int => match v {
            Value::Int(_) => Ok(value_literal(v)),
            _ => Err(gen_error()),
        },
        Type::Uint => match v {
            Value::Uint(_) => Ok(value_literal(v)),
            _ => Err(gen_error()),
        },
        Type::Bool => match v {
            Value::Bool(_) => Ok(value_literal(v)),
            _ => Err(gen_error()),
        },
        Type::Null => Err(gen_error()),
    }
}

/// Renders the comma-joined element expressions of an array value, exactly
/// as `spec_gen_elems` says.
pub fn gen_array(name: &String, et: &Type, vs: &Vec<Value>) -> (r: Result<String, EnvlLibError>)
    ensures
        match r {
            Result::Ok(s) => spec_gen_elems(name@, type_v(*et), crate::types::value_elems_v(vs@))
                == Result::<Seq<char>, ()>::Ok(s@),
            Result::Err(_) => spec_gen_elems(name@, type_v(*et), crate::types::value_elems_v(vs@))
                is Err,
        },
    decreases et, vs,
{
    let ghost et_v = type_v(*et);
    let ghost vs_v = crate::types::value_elems_v(vs@);
    proof {
        crate::types::lemma_value_elems_v(vs@);
    }
    let mut out = String::new();
    let n = vs.len();
    proof {
        assert(vs_v.skip(0) =~= vs_v);
    }
    let mut k: usize = 0;
    while k < n
        invariant
            et_v == type_v(*et),
            vs_v == crate::types::value_elems_v(vs@),
            vs_v.len() == vs@.len(),
            forall|i: int| 0 <= i < vs@.len() ==> vs_v[i] == value_v(#[trigger] vs@[i]),
            n == vs@.len(),
            0 <= k <= n,
            k == 0 ==> out@ == Seq::<char>::empty(),
            spec_gen_elems(name@, et_v, vs_v) == (match spec_gen_elems(
                name@,
                et_v,
                vs_v.skip(k as int),
            ) {
                Result::Ok(rest) => Result::<Seq<char>, ()>::Ok(
                    if k == 0 {
                        rest
                    } else if k == n {
                        out@
                    } else {
                        out@ + ", "@ + rest
                    },
                ),
                Result::Err(e) => Result::<Seq<char>, ()>::Err(e),
            }),
        decreases n - k,
    {
        proof {
            assert(vs_v.skip(k as int).drop_first() =~= vs_v.skip(k + 1 as int));
            assert(vs_v.skip(k as int)[0] == vs_v[k as int]);
        }
        match gen_value(name, et, &vs[k]) {
            Ok(h) => {
                let ghost out0 = out@;
                if k > 0 {
                    out.append(", ");
                }
                out.append(h.as_str());
                proof {
                    if k == 0 {
                        assert(out@ =~= h@);
                    } else {
                        assert(out@ =~= out0 + ", "@ + h@);
                    }
                    if spec_gen_elems(name@, et_v, vs_v.skip(k + 1 as int)) is Ok {
                        let rest = spec_gen_elems(name@, et_v, vs_v.skip(k + 1 as int))->Ok_0;
                        if k + 1 < n {
                            if k == 0 {
                                assert(h@ + ", "@ + rest =~= out@ + ", "@ + rest);
                            } else {
                                assert(out0 + ", "@ + (h@ + ", "@ + rest) =~= out@ + ", "@
                                    + rest);
                            }
                        } else {
                            if k == 0 {
                                assert(h@ =~= out@);
                            } else {
                                assert(out0 + ", "@ + h@ =~= out@);
                            }
                        }
                    }
                }
                k += 1;
            },
            Err(e) => {
                return Err(e);
            },
        }
    }
    proof {
        assert(vs_v.skip(n as int) =~= Seq::<ValueV>::empty());
    }
    Ok(out)
}

/// Renders the comma-joined field initializers of a struct value over its
/// declared fields, exactly as `spec_gen_fields` says.
pub fn gen_struct(sname: &String, fs: &Vec<(String, Type)>, vfs: &Vec<(String, Value)>) -> (r:
    Result<String, EnvlLibError>)
    ensures
        match r {
            Result::Ok(s) => spec_gen_fields(
                sname@,
                type_fields_v(fs@),
                value_fields_v(vfs@),
            ) == Result::<Seq<char>, ()>::Ok(s@),
            Result::Err(_) => spec_gen_fields(sname@, type_fields_v(fs@), value_fields_v(vfs@))
                is Err,
        },
    decreases fs,
{
    let ghost fs_v = type_fields_v(fs@);
    let ghost vfs_v = value_fields_v(vfs@);
    proof {
        lemma_type_fields_v(fs@);
        lemma_value_fields_v(vfs@);
    }
    let mut out = String::new();
    let n = fs.len();
    proof {
        assert(fs_v.skip(0) =~= fs_v);
    }
    let mut k: usize = 0;
    while k < n
        invariant
            fs_v == type_fields_v(fs@),
            vfs_v == value_fields_v(vfs@),
            fs_v.len() == fs@.len(),
            vfs_v.len() == vfs@.len(),
            forall|i: int|
                0 <= i < fs@.len() ==> #[trigger] fs_v[i] == (fs@[i].0@, type_v(fs@[i].1)),
            forall|i: int|
                0 <= i < vfs@.len() ==> #[trigger] vfs_v[i] == (vfs@[i].0@, value_v(vfs@[i].1)),
            n == fs@.len(),
            0 <= k <= n,
            k == 0 ==> out@ == Seq::<char>::empty(),
            spec_gen_fields(sname@, fs_v, vfs_v) == (match spec_gen_fields(
                sname@,
                fs_v.skip(k as int),
                vfs_v,
            ) {
                Result::Ok(rest) => Result::<Seq<char>, ()>::Ok(
                    if k == 0 {
                        rest
                    } else if k == n {
                        out@
                    } else {
                        out@ + ", "@ + rest
                    },
                ),
                Result::Err(e) => Result::<Seq<char>, ()>::Err(e),
            }),
        decreases n - k,
    {
        proof {
            assert(fs_v.skip(k as int).drop_first() =~= fs_v.skip(k + 1 as int));
            assert(fs_v.skip(k as int)[0] == fs_v[k as int]);
        }
        let fv_idx = match crate::types::assoc_find_idx(vfs, &fs[k].0) {
            Some(ix) => {
                proof {
                    assert(forall|a: int|
                        0 <= a < ix ==> (#[trigger] vfs_v[a]).0 != fs_v[k as int].0);
                    lemma_assoc_get_some(vfs_v, fs_v[k as int].0, ix as int);
                }
                ix
            },
            None => {
                proof {
                    assert(forall|a: int|
                        0 <= a < vfs_v.len() ==> (#[trigger] vfs_v[a]).0 != fs_v[k as int].0);
                    lemma_assoc_get_none(vfs_v, fs_v[k as int].0);
                }
                return Err(gen_error());
            },
        };
        let mut child = sname.clone();
        child.append(fs[k].0.as_str());
        match gen_value(&child, &fs[k].1, &vfs[fv_idx].1) {
            Ok(h) => {
                let ghost out0 = out@;
                if k > 0 {
                    out.append(", ");
                }
                out.append(fs[k].0.as_str());
                out.append(": ");
                out.append(h.as_str());
                proof {
                    let piece = fs_v[k as int].0 + ": "@ + h@;
                    if k == 0 {
                        assert(out@ =~= piece);
                    } else {
                        assert(out@ =~= out0 + ", "@ + piece);
                    }
                    if spec_gen_fields(sname@, fs_v.skip(k + 1 as int), vfs_v) is Ok {
                        let rest = spec_gen_fields(sname@, fs_v.skip(k + 1 as int), vfs_v)->Ok_0;
                        if k + 1 < n {
                            if k == 0 {
                                assert(piece + ", "@ + rest =~= out@ + ", "@ + rest);
                            } else {
                                assert(out0 + ", "@ + (piece + ", "@ + rest) =~= out@ + ", "@
                                    + rest);
                            }
                        } else {
                            if k == 0 {
                                assert(piece =~= out@);
                            } else {
                                assert(out0 + ", "@ + piece =~= out@);
                            }
                        }
                    }
                }
                k += 1;
            },
            Err(e) => {
                return Err(e);
            },
        }
    }
    proof {
        assert(fs_v.skip(n as int) =~= Seq::<(Seq<char>, TypeV)>::empty());
    }
    Ok(out)
}

/// The derive line every generated record carries.
pub fn struct_derive() -> (r: String)
    ensures
        r@ == "#[derive(Debug, Clone, PartialEq)]"@,
{
    String::from_str("#[derive(Debug, Clone, PartialEq)]")
}

/// The value an entry contributes to the constructor: its resolved value,
/// or its default when the resolved value is `Null`.
pub open spec fn spec_entry_value(d: VarDataV) -> ValueV {
    if d.value is Null {
        d.default_value
    } else {
        d.value
    }
}

/// Renders one entry's constructor expression, exactly as `spec_gen_value`
/// over `spec_entry_value` says.
pub fn parse_var(name: &String, var: &VarData) -> (r: Result<String, EnvlLibError>)
    ensures
        match r {
            Result::Ok(s) => spec_gen_value(name@, type_v(var.v_type), spec_entry_value(var@))
                == Result::<Seq<char>, ()>::Ok(s@),
            Result::Err(_) => spec_gen_value(name@, type_v(var.v_type), spec_entry_value(var@))
                is Err,
        },
{
    if matches!(&var.value, Value::Null) {
        gen_value(name, &var.v_type, &var.default_value)
    } else {
        gen_value(name, &var.v_type, &var.value)
    }
}

/// The models of an environment.
pub open spec fn env_v(s: Seq<(String, VarData)>) -> Seq<(Seq<char>, VarDataV)> {
    s.map(|i: int, p: (String, VarData)| (p.0@, p.1@))
}

pub open spec fn spec_entries_defs(es: Seq<(Seq<char>, VarDataV)>) -> Seq<char>
    decreases es,
{
    if es.len() == 0 {
        Seq::empty()
    } else {
        spec_v_type_defs(es[0].0, es[0].1.v_type) + spec_entries_defs(es.drop_first())
    }
}

pub open spec fn spec_entries_fields(es: Seq<(Seq<char>, VarDataV)>) -> Seq<char>
    decreases es,
{
    if es.len() == 0 {
        Seq::empty()
    } else {
        "    pub "@ + es[0].0 + ": "@ + spec_v_type_text(es[0].0, es[0].1.v_type) + ",\n"@
            + spec_entries_fields(es.drop_first())
    }
}

pub open spec fn spec_entries_values(es: Seq<(Seq<char>, VarDataV)>) -> Result<Seq<char>, ()>
    decreases es,
{
    if es.len() == 0 {
        Result::Ok(Seq::empty())
    } else {
        match spec_gen_value(es[0].0, es[0].1.v_type, spec_entry_value(es[0].1)) {
            Result::Ok(x) => match spec_entries_values(es.drop_first()) {
                Result::Ok(rest) => Result::Ok(
                    "        "@ + es[0].0 + ": "@ + x + ",\n"@ + rest,
                ),
                Result::Err(e) => Result::Err(e),
            },
            Result::Err(e) => Result::Err(e),
        }
    }
}

/// The whole generated source: the record definitions, the aggregate `Env`
/// record, and the constructor populating it.
pub open spec fn spec_gen_file(es: Seq<(Seq<char>, VarDataV)>) -> Result<Seq<char>, ()> {
    match spec_entries_values(es) {
        Result::Ok(vals) => Result::Ok(
            spec_entries_defs(es) + "#[derive(Debug, Clone, PartialEq)]\npub struct Env {\n"@
                + spec_entries_fields(es) + "}\n\npub fn envl() -> Env {\n    Env {\n"@ + vals
                + "    }\n}\n"@,
        ),
        Result::Err(e) => Result::Err(e),
    }
}

pub proof fn lemma_entries_defs_snoc(es: Seq<(Seq<char>, VarDataV)>, x: (Seq<char>, VarDataV))
    ensures
        spec_entries_defs(es.push(x)) == spec_entries_defs(es) + spec_v_type_defs(
            x.0,
            x.1.v_type,
        ),
    decreases es,
{
    if es.len() == 0 {
        assert(es.push(x).drop_first() =~= es);
        assert(es.push(x)[0] == x);
        assert(spec_entries_defs(es.push(x)) =~= spec_entries_defs(es) + spec_v_type_defs(
            x.0,
            x.1.v_type,
        ));
    } else {
        assert(es.push(x).drop_first() =~= es.drop_first().push(x));
        assert(es.push(x)[0] == es[0]);
        lemma_entries_defs_snoc(es.drop_first(), x);
        assert(spec_entries_defs(es.push(x)) =~= spec_entries_defs(es) + spec_v_type_defs(
            x.0,
            x.1.v_type,
        ));
    }
}

pub proof fn lemma_entries_fields_snoc(es: Seq<(Seq<char>, VarDataV)>, x: (Seq<char>, VarDataV))
    ensures
        spec_entries_fields(es.push(x)) == spec_entries_fields(es) + ("    pub "@ + x.0 + ": "@
            + spec_v_type_text(x.0, x.1.v_type) + ",\n"@),
    decreases es,
{
    if es.len() == 0 {
        assert(es.push(x).drop_first() =~= es);
        assert(es.push(x)[0] == x);
        assert(spec_entries_fields(es.push(x)) =~= spec_entries_fields(es) + ("    pub "@ + x.0
            + ": "@ + spec_v_type_text(x.0, x.1.v_type) + ",\n"@));
    } else {
        assert(es.push(x).drop_first() =~= es.drop_first().push(x));
        assert(es.push(x)[0] == es[0]);
        lemma_entries_fields_snoc(es.drop_first(), x);
        assert(spec_entries_fields(es.push(x)) =~= spec_entries_fields(es) + ("    pub "@ + x.0
            + ": "@ + spec_v_type_text(x.0, x.1.v_type) + ",\n"@));
    }
}

/// Renders the whole target source for an environment, exactly as
/// `spec_gen_file` says.
pub fn generate_rust_file(data: &VariableHashMap) -> (r: Result<String, EnvlLibError>)
    ensures
        match r {
            Result::Ok(s) => spec_gen_file(env_v(data@)) == Result::<Seq<char>, ()>::Ok(s@),
            Result::Err(_) => spec_gen_file(env_v(data@)) is Err,
        },
{
    let ghost es = env_v(data@);
    proof {
        assert(forall|i: int|
            0 <= i < data@.len() ==> #[trigger] es[i] == (data@[i].0@, data@[i].1@));
    }
    let mut defs = String::new();
    let mut fields = String::new();
    let mut vals = String::new();
    let n = data.len();
    proof {
        assert(es.take(0) =~= Seq::<(Seq<char>, VarDataV)>::empty());
        assert(es.skip(0) =~= es);
    }
    let mut k: usize = 0;
    while k < n
        invariant
            es == env_v(data@),
            es.len() == data@.len(),
            forall|i: int|
                0 <= i < data@.len() ==> #[trigger] es[i] == (data@[i].0@, data@[i].1@),
            n == data@.len(),
            0 <= k <= n,
            defs@ == spec_entries_defs(es.take(k as int)),
            fields@ == spec_entries_fields(es.take(k as int)),
            spec_entries_values(es) == (match spec_entries_values(es.skip(k as int)) {
                Result::Ok(rest) => Result::<Seq<char>, ()>::Ok(vals@ + rest),
                Result::Err(e) => Result::<Seq<char>, ()>::Err(e),
            }),
            k == 0 ==> vals@ == Seq::<char>::empty(),
        decreases n - k,
    {
        proof {
            assert(es.take(k + 1 as int) =~= es.take(k as int).push(es[k as int]));
            assert(es.skip(k as int).drop_first() =~= es.skip(k + 1 as int));
            assert(es.skip(k as int)[0] == es[k as int]);
            lemma_entries_defs_snoc(es.take(k as int), es[k as int]);
            lemma_entries_fields_snoc(es.take(k as int), es[k as int]);
        }
        let name = &data[k].0;
        let var = &data[k].1;
        let t_text = parse_v_type(name.clone(), &var.v_type, &mut defs);
        fields.append("    pub ");
        fields.append(name.as_str());
        fields.append(": ");
        fields.append(t_text.as_str());
        fields.append(",\n");
        match parse_var(name, var) {
            Ok(v_text) => {
                let ghost vals0 = vals@;
                vals.append("        ");
                vals.append(name.as_str());
                vals.append(": ");
                vals.append(v_text.as_str());
                vals.append(",\n");
                proof {
                    assert(vals@ =~= vals0 + ("        "@ + es[k as int].0 + ": "@ + v_text@
                        + ",\n"@));
                    if spec_entries_values(es.skip(k + 1 as int)) is Ok {
                        let rest = spec_entries_values(es.skip(k + 1 as int))->Ok_0;
                        assert(vals0 + ("        "@ + es[k as int].0 + ": "@ + v_text@ + ",\n"@
                            + rest) =~= vals@ + rest);
                    }
                }
            },
            Err(e) => {
                return Err(e);
            },
        }
        k += 1;
    }
    proof {
        assert(es.take(n as int) =~= es);
        assert(es.skip(n as int) =~= Seq::<(Seq<char>, VarDataV)>::empty());
        assert(vals@ + Seq::<char>::empty() =~= vals@);
    }
    let mut out = defs;
    out.append("#[derive(Debug, Clone, PartialEq)]\npub struct Env {\n");
    out.append(fields.as_str());
    out.append("}\n\npub fn envl() -> Env {\n    Env {\n");
    out.append(vals.as_str());
    out.append("    }\n}\n");
    Ok(out)
}

/// Whether the output path names a Rust source file.
pub open spec fn spec_is_rs_path(s: Seq<char>) -> bool {
    s.len() >= 2 && s[s.len() - 2] == 'r' && s[s.len() - 1] == 's'
}

/// Dispatches on the requested output file's extension: only Rust output
/// is known; anything else is the unsupported-file error.
pub fn generate_file(data: &VariableHashMap, output: &String) -> (r: Result<String, EnvlLibError>)
    ensures
        match r {
            Result::Ok(s) => spec_is_rs_path(output@) && spec_gen_file(env_v(data@)) == Result::<
                Seq<char>,
                (),
            >::Ok(s@),
            Result::Err(e) => !spec_is_rs_path(output@) || spec_gen_file(env_v(data@)) is Err,
        },
{
    let s = output.as_str();
    let n = s.unicode_len();
    if n >= 2 && s.get_char(n - 2) == 'r' && s.get_char(n - 1) == 's' {
        generate_rust_file(data)
    } else {
        Err(EnvlLibError { message: String::from_str("Unsupported file") })
    }
}

/// Appending one field extends the emitted definitions and field lines at
/// the end.
pub proof fn lemma_fields_defs_snoc(
    sname: Seq<char>,
    fs: Seq<(Seq<char>, TypeV)>,
    x: (Seq<char>, TypeV),
)
    ensures
        spec_fields_defs(sname, fs.push(x)) == spec_fields_defs(sname, fs) + spec_v_type_defs(
            spec_child_name(sname, x.0, x.1),
            x.1,
        ),
    decreases fs,
{
    if fs.len() == 0 {
        assert(fs.push(x).drop_first() =~= fs);
        assert(fs.push(x)[0] == x);
        assert(spec_fields_defs(sname, fs) =~= Seq::<char>::empty());
        assert(spec_fields_defs(sname, fs.push(x)) =~= spec_v_type_defs(
            spec_child_name(sname, x.0, x.1),
            x.1,
        ) + Seq::<char>::empty());
        assert(spec_fields_defs(sname, fs) + spec_v_type_defs(
            spec_child_name(sname, x.0, x.1),
            x.1,
        ) =~= spec_v_type_defs(spec_child_name(sname, x.0, x.1), x.1));
    } else {
        assert(fs.push(x).drop_first() =~= fs.drop_first().push(x));
        assert(fs.push(x)[0] == fs[0]);
        lemma_fields_defs_snoc(sname, fs.drop_first(), x);
        assert(spec_fields_defs(sname, fs.push(x)) =~= spec_fields_defs(sname, fs)
            + spec_v_type_defs(spec_child_name(sname, x.0, x.1), x.1));
    }
}

pub proof fn lemma_fields_text_snoc(
    sname: Seq<char>,
    fs: Seq<(Seq<char>, TypeV)>,
    x: (Seq<char>, TypeV),
)
    ensures
        spec_struct_fields_text(sname, fs.push(x)) == spec_struct_fields_text(sname, fs) + (
        "    pub "@ + x.0 + ": "@ + spec_v_type_text(spec_child_name(sname, x.0, x.1), x.1)
            + ",\n"@),
    decreases fs,
{
    if fs.len() == 0 {
        assert(fs.push(x).drop_first() =~= fs);
        assert(fs.push(x)[0] == x);
        assert(spec_struct_fields_text(sname, fs.push(x)) =~= spec_struct_fields_text(sname, fs)
            + ("    pub "@ + x.0 + ": "@ + spec_v_type_text(
            spec_child_name(sname, x.0, x.1),
            x.1,
        ) + ",\n"@));
    } else {
        assert(fs.push(x).drop_first() =~= fs.drop_first().push(x));
        assert(fs.push(x)[0] == fs[0]);
        lemma_fields_text_snoc(sname, fs.drop_first(), x);
        assert(spec_struct_fields_text(sname, fs.push(x)) =~= spec_struct_fields_text(sname, fs)
            + ("    pub "@ + x.0 + ": "@ + spec_v_type_text(
            spec_child_name(sname, x.0, x.1),
            x.1,
        ) + ",\n"@));
    }
}

} // verus!
