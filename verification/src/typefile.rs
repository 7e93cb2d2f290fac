use vstd::prelude::*;

verus! {

use crate::config::ast::{Config, Var, VarV};
use crate::generator::{spec_v_type_defs, spec_v_type_text};
use crate::liberror::EnvlLibError;
use crate::types::{Type, type_v};

/// The concatenation of a list of emitted definitions.
pub open spec fn strs_cat(ss: Seq<String>) -> Seq<char>
    decreases ss,
{
    if ss.len() == 0 {
        Seq::empty()
    } else {
        ss[0]@ + strs_cat(ss.drop_first())
    }
}

pub proof fn lemma_strs_cat_snoc(ss: Seq<String>, x: String)
    ensures
        strs_cat(ss.push(x)) == strs_cat(ss) + x@,
    decreases ss,
{
    if ss.len() == 0 {
        assert(ss.push(x).drop_first() =~= ss);
        assert(ss.push(x)[0] == x);
        assert(strs_cat(ss.push(x)) =~= strs_cat(ss) + x@);
    } else {
        assert(ss.push(x).drop_first() =~= ss.drop_first().push(x));
        assert(ss.push(x)[0] == ss[0]);
        lemma_strs_cat_snoc(ss.drop_first(), x);
        assert(strs_cat(ss.push(x)) =~= strs_cat(ss) + x@);
    }
}

/// Emits the type expression for a declared type and pushes the record
/// definitions it needs, exactly as `spec_v_type_text` and
/// `spec_v_type_defs` say.
pub fn parse_v_type(v_name: String, v_type: &Type, structs: &mut Vec<String>) -> (r: String)
    ensures
        r@ == spec_v_type_text(v_name@, type_v(*v_type)),
        strs_cat(final(structs)@) == strs_cat(old(structs)@) + spec_v_type_defs(
            v_name@,
            type_v(*v_type),
        ),
{
    let ghost name_v = v_name@;
    let mut defs = String::new();
    let r = crate::generator::parse_v_type(v_name, v_type, &mut defs);
    if defs.as_str().unicode_len() > 0 {
        let ghost structs0 = structs@;
        proof {
            lemma_strs_cat_snoc(structs0, defs);
        }
        structs.push(defs);
    } else {
        proof {
            assert(defs@ =~= Seq::<char>::empty());
            assert(strs_cat(structs@) + spec_v_type_defs(name_v, type_v(*v_type)) =~= strs_cat(
                structs@,
            ));
        }
    }
    r
}

/// One field line of the type skeleton: typed `Option<T>` when the
/// declaration carries a default, else exactly `T`.
pub open spec fn spec_typefile_field(name: Seq<char>, d: VarV) -> Seq<char> {
    if d.default_value is Null {
        "pub "@ + name + ": "@ + spec_v_type_text(name, d.v_type) + ","@
    } else {
        "pub "@ + name + ": Option<"@ + spec_v_type_text(name, d.v_type) + ">,"@
    }
}

/// Emits one declaration's field line and its record definitions, exactly
/// as `spec_typefile_field` and `spec_v_type_defs` say.
pub fn parse_var(name: String, var: &Var, structs: &mut Vec<String>) -> (r: String)
    ensures
        r@ == spec_typefile_field(name@, var@),
        strs_cat(final(structs)@) == strs_cat(old(structs)@) + spec_v_type_defs(
            name@,
            type_v(var.v_type),
        ),
{
    let parsed = parse_v_type(name.clone(), &var.v_type, structs);
    let mut r = String::from_str("pub ");
    r.append(name.as_str());
    if matches!(&var.default_value, crate::types::Value::Null) {
        r.append(": ");
        r.append(parsed.as_str());
        r.append(",");
    } else {
        r.append(": Option<");
        r.append(parsed.as_str());
        r.append(">,");
    }
    r
}

pub open spec fn spec_typefile_fields(vs: Seq<(String, Var)>) -> Seq<char>
    decreases vs,
{
    if vs.len() == 0 {
        Seq::empty()
    } else {
        "    "@ + spec_typefile_field(vs[0].0@, vs[0].1@) + "\n"@ + spec_typefile_fields(
            vs.drop_first(),
        )
    }
}

pub open spec fn spec_typefile_defs(vs: Seq<(String, Var)>) -> Seq<char>
    decreases vs,
{
    if vs.len() == 0 {
        Seq::empty()
    } else {
        spec_v_type_defs(vs[0].0@, type_v(vs[0].1.v_type)) + spec_typefile_defs(vs.drop_first())
    }
}

/// The whole type skeleton: the record definitions, then the aggregate
/// `Env` record.
pub open spec fn spec_typefile(vs: Seq<(String, Var)>) -> Seq<char> {
    spec_typefile_defs(vs) + "pub struct Env {\n"@ + spec_typefile_fields(vs) + "}\n"@
}

pub proof fn lemma_typefile_fields_snoc(vs: Seq<(String, Var)>, x: (String, Var))
    ensures
        spec_typefile_fields(vs.push(x)) == spec_typefile_fields(vs) + ("    "@
            + spec_typefile_field(x.0@, x.1@) + "\n"@),
    decreases vs,
{
    if vs.len() == 0 {
        assert(vs.push(x).drop_first() =~= vs);
        assert(vs.push(x)[0] == x);
        assert(spec_typefile_fields(vs.push(x)) =~= spec_typefile_fields(vs) + ("    "@
            + spec_typefile_field(x.0@, x.1@) + "\n"@));
    } else {
        assert(vs.push(x).drop_first() =~= vs.drop_first().push(x));
        assert(vs.push(x)[0] == vs[0]);
        lemma_typefile_fields_snoc(vs.drop_first(), x);
        assert(spec_typefile_fields(vs.push(x)) =~= spec_typefile_fields(vs) + ("    "@
            + spec_typefile_field(x.0@, x.1@) + "\n"@));
    }
}

pub proof fn lemma_typefile_defs_snoc(vs: Seq<(String, Var)>, x: (String, Var))
    ensures
        spec_typefile_defs(vs.push(x)) == spec_typefile_defs(vs) + spec_v_type_defs(
            x.0@,
            type_v(x.1.v_type),
        ),
    decreases vs,
{
    if vs.len() == 0 {
        assert(vs.push(x).drop_first() =~= vs);
        assert(vs.push(x)[0] == x);
        assert(spec_typefile_defs(vs.push(x)) =~= spec_typefile_defs(vs) + spec_v_type_defs(
            x.0@,
            type_v(x.1.v_type),
        ));
    } else {
        assert(vs.push(x).drop_first() =~= vs.drop_first().push(x));
        assert(vs.push(x)[0] == vs[0]);
        lemma_typefile_defs_snoc(vs.drop_first(), x);
        assert(spec_typefile_defs(vs.push(x)) =~= spec_typefile_defs(vs) + spec_v_type_defs(
            x.0@,
            type_v(x.1.v_type),
        ));
    }
}

/// Renders the type skeleton of a schema, exactly as `spec_typefile` says.
pub fn gen_rust_typefile(config: &Config) -> (r: Result<String, EnvlLibError>)
    ensures
        match r {
            Result::Ok(s) => s@ == spec_typefile(config.vars@),
            Result::Err(_) => false,
        },
{
    let ghost vs = config.vars@;
    let mut defs = String::new();
    let mut fields = String::new();
    let n = config.vars.len();
    proof {
        assert(vs.take(0) =~= Seq::<(String, Var)>::empty());
    }
    let mut k: usize = 0;
    while k < n
        invariant
            vs == config.vars@,
            n == vs.len(),
            0 <= k <= n,
            defs@ == spec_typefile_defs(vs.take(k as int)),
            fields@ == spec_typefile_fields(vs.take(k as int)),
        decreases n - k,
    {
        proof {
            assert(vs.take(k + 1 as int) =~= vs.take(k as int).push(vs[k as int]));
            lemma_typefile_fields_snoc(vs.take(k as int), vs[k as int]);
            lemma_typefile_defs_snoc(vs.take(k as int), vs[k as int]);
        }
        let mut entry_defs: Vec<String> = Vec::new();
        let line = parse_var(config.vars[k].0.clone(), &config.vars[k].1, &mut entry_defs);
        let mut d: usize = 0;
        let dn = entry_defs.len();
        proof {
            assert(entry_defs@.take(0) =~= Seq::<String>::empty());
        }
        while d < dn
            invariant
                0 <= d <= dn,
                dn == entry_defs@.len(),
                defs@ == spec_typefile_defs(vs.take(k as int)) + strs_cat(
                    entry_defs@.take(d as int),
                ),
            decreases dn - d,
        {
            proof {
                assert(entry_defs@.take(d + 1 as int) =~= entry_defs@.take(d as int).push(
                    entry_defs@[d as int],
                ));
                lemma_strs_cat_snoc(entry_defs@.take(d as int), entry_defs@[d as int]);
            }
            defs.append(entry_defs[d].as_str());
            d += 1;
        }
        proof {
            assert(entry_defs@.take(dn as int) =~= entry_defs@);
            assert(strs_cat(Seq::<String>::empty()) + strs_cat(entry_defs@) =~= strs_cat(
                entry_defs@,
            ));
        }
        fields.append("    ");
        fields.append(line.as_str());
        fields.append("\n");
        k += 1;
    }
    proof {
        assert(vs.take(n as int) =~= vs);
    }
    let mut out = defs;
    out.append("pub struct Env {\n");
    out.append(fields.as_str());
    out.append("}\n");
    Ok(out)
}

/// Dispatches on the requested output file's extension: only Rust output
/// is known; anything else is the unsupported-file error.
pub fn generate_typefile(config: &Config, output: &String) -> (r: Result<String, EnvlLibError>)
    ensures
        match r {
            Result::Ok(s) => crate::generator::spec_is_rs_path(output@) && s@ == spec_typefile(
                config.vars@,
            ),
            Result::Err(_) => !crate::generator::spec_is_rs_path(output@),
        },
{
    let s = output.as_str();
    let n = s.unicode_len();
    if n >= 2 && s.get_char(n - 2) == 'r' && s.get_char(n - 1) == 's' {
        gen_rust_typefile(config)
    } else {
        Err(EnvlLibError { message: String::from_str("Unsupported file") })
    }
}

} // verus!
