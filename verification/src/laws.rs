use vstd::prelude::*;

verus! {

use crate::generator::spec_value_literal;
use crate::num::{lemma_u64_digits_are_digits, lemma_u64_digits_val, spec_is_float, spec_is_num,
    spec_u64_digits};
use crate::types::{TypeV, ValueV};
use crate::unify::{VarDataV, entry_ok, entry_possible, find_var, spec_unify};
use crate::vars::variable::VariableV;
use crate::vars::parser::spec_classify;
use crate::vars::variable::VarValV;

/// A declaration of option type always resolves against assignments that
/// miss its name.
pub proof fn lemma_option_missing_possible(
    name: Seq<char>,
    var: crate::config::ast::VarV,
    assigns: Seq<VariableV>,
)
    requires
        var.v_type is Opt,
        find_var(assigns, name) is None,
    ensures
        entry_possible(name, var, assigns),
{
}

/// Unifying an option-typed declaration with a missing assignment always
/// yields `Null`, whatever the inner type.
pub proof fn lemma_option_missing_yields_null(
    name: Seq<char>,
    var: crate::config::ast::VarV,
    assigns: Seq<VariableV>,
    data: VarDataV,
)
    requires
        var.v_type is Opt,
        find_var(assigns, name) is None,
        entry_ok(name, var, assigns, data),
    ensures
        data.value == ValueV::Null,
{
}

/// A leaf pairing of a declared type and a value of exactly that kind; a
/// float value must carry a well-shaped literal, as unification produces.
pub open spec fn leaf_pair(t: TypeV, v: ValueV) -> bool {
    ||| (t is Str && v is Str)
    ||| (t is Chr && v is Chr)
    ||| (t is Int && v is Int)
    ||| (t is Uint && v is Uint)
    ||| (t is Bool && v is Bool)
    ||| (t is Flt && v is Flt && spec_is_float(v->Flt_0))
}

/// Round-tripping a leaf value: rendering it as its literal text, then
/// classifying that text as the values grammar does, then unifying the
/// classified literal against the originating type yields the value back.
pub proof fn lemma_leaf_literal_round_trip(t: TypeV, v: ValueV)
    requires
        leaf_pair(t, v),
    ensures
        spec_classify(spec_value_literal(v)) is Ok,
        spec_unify(t, spec_classify(spec_value_literal(v))->Ok_0) == Option::Some(v),
{
    let lit = spec_value_literal(v);
    reveal_strlit("true");
    reveal_strlit("false");
    match v {
        ValueV::Str(s) => {
            assert(lit =~= seq!['"'] + s + seq!['"']);
            assert(lit[0] == '"' && lit[lit.len() - 1] == '"' && lit.len() >= 2);
            assert(lit.subrange(1, lit.len() - 1) =~= s);
        },
        ValueV::Chr(c) => {
            assert(lit =~= seq!['\''] + seq![c] + seq!['\'']);
            assert(lit.len() == 3);
            assert(lit[0] != '"');
            assert(lit[0] == '\'' && lit[2] == '\'');
            assert(lit[1] == c);
        },
        ValueV::Int(i) => {
            lemma_u64_digits_are_digits(if i < 0 { -(i as int) } else { i as int });
            lemma_u64_digits_val(if i < 0 { -(i as int) } else { i as int });
            if i >= 0 {
                let ds = spec_u64_digits(i as int);
                assert(lit == ds);
                assert(ds.len() >= 1 && spec_is_num(ds));
                assert(crate::num::spec_is_digit(ds[0]));
                assert(lit[0] != '"' && lit[0] != '\'');
                assert(spec_is_num(lit));
                assert(spec_classify(lit) == Result::<VarValV, u32>::Ok(VarValV::Num(lit)));
                assert(crate::num::spec_parse_i64(lit) == Option::Some(i)) by {
                    assert(crate::num::spec_is_digit(lit[0]));
                    assert(lit[0] != '-' && lit[0] != '+');
                    assert(crate::num::spec_digits_val(lit) == i);
                };
            } else {
                let m = -(i as int);
                let ds = spec_u64_digits(m);
                assert(lit =~= seq!['-'] + ds);
                assert(lit[0] == '-');
                assert(lit[0] != '"' && lit[0] != '\'');
                assert(!spec_is_num(lit)) by {
                    assert(!crate::num::spec_is_digit(lit[0]));
                };
                assert(spec_is_float(lit)) by {
                    assert(lit.drop_first() =~= ds);
                    assert(forall|k: int|
                        0 <= k < ds.len() ==> crate::num::spec_is_digit(#[trigger] ds[k]));
                    assert(crate::num::spec_is_digit(ds[0]));
                    assert(ds.take(ds.len() as int) =~= ds);
                    assert(crate::num::spec_mantissa_ok(ds.take(ds.len() as int)));
                    assert(crate::num::spec_float_digits_ok(ds));
                };
                assert(spec_classify(lit) == Result::<VarValV, u32>::Ok(VarValV::Num(lit)));
                assert(crate::num::spec_parse_i64(lit) == Option::Some(i)) by {
                    assert(lit.drop_first() =~= ds);
                    assert(crate::num::spec_digits_val(ds) == m);
                    assert(-m >= i64::MIN as int);
                };
            }
        },
        ValueV::Uint(u) => {
            lemma_u64_digits_are_digits(u as int);
            lemma_u64_digits_val(u as int);
            let ds = spec_u64_digits(u as int);
            assert(lit == ds);
            assert(ds.len() >= 1 && spec_is_num(ds));
            assert(crate::num::spec_is_digit(ds[0]));
            assert(lit[0] != '"' && lit[0] != '\'');
            assert(spec_is_num(lit));
            assert(crate::num::spec_parse_u64(lit) == Option::Some(u));
        },
        ValueV::Bool(b) => {
            if b {
                assert(lit == "true"@);
                assert(lit[0] == 't');
                assert(lit[0] != '"' && lit[0] != '\'');
                assert(!spec_is_num(lit)) by {
                    assert(!crate::num::spec_is_digit(lit[0]));
                };
                assert(!spec_is_float(lit)) by {
                    assert(lit[0] != '-' && lit[0] != '+');
                    assert(!crate::num::spec_is_digit(lit[0]) && lit[0] != '.');
                    assert forall|m: int|
                        0 <= m <= lit.len() implies !(crate::num::spec_mantissa_ok(
                        #[trigger] lit.take(m),
                    ) && (m == lit.len() || crate::num::spec_exponent_ok(lit.skip(m)))) by {
                        if m >= 1 {
                            assert(lit.take(m)[0] == lit[0]);
                        }
                    };
                    assert(!crate::num::spec_float_digits_ok(lit));
                };
            } else {
                assert(lit == "false"@);
                assert(lit[0] == 'f');
                assert(lit[0] != '"' && lit[0] != '\'');
                assert(!spec_is_num(lit)) by {
                    assert(!crate::num::spec_is_digit(lit[0]));
                };
                assert(!spec_is_float(lit)) by {
                    assert(lit[0] != '-' && lit[0] != '+');
                    assert(!crate::num::spec_is_digit(lit[0]) && lit[0] != '.');
                    assert forall|m: int|
                        0 <= m <= lit.len() implies !(crate::num::spec_mantissa_ok(
                        #[trigger] lit.take(m),
                    ) && (m == lit.len() || crate::num::spec_exponent_ok(lit.skip(m)))) by {
                        if m >= 1 {
                            assert(lit.take(m)[0] == lit[0]);
                        }
                    };
                    assert(!crate::num::spec_float_digits_ok(lit));
                };
                assert(lit != "true"@) by {
                    assert(lit.len() != "true"@.len());
                };
            }
        },
        ValueV::Flt(s) => {
            assert(lit == s);
            assert(s.len() > 0) by {
                if s.len() > 0 {
                } else {
                    assert(!spec_is_float(s));
                }
            };
            assert(lit[0] != '"' && lit[0] != '\'') by {
                let digits = if s.len() > 0 && (s[0] == '-' || s[0] == '+') {
                    s.drop_first()
                } else {
                    s
                };
                if s[0] == '-' || s[0] == '+' {
                } else {
                    let m0 = choose|m: int|
                        0 <= m <= digits.len() && crate::num::spec_mantissa_ok(
                            #[trigger] digits.take(m),
                        ) && (m == digits.len() || crate::num::spec_exponent_ok(digits.skip(m)));
                    // the mantissa holds a digit, so it is non-empty
                    let di = choose|i: int|
                        0 <= i < digits.take(m0).len() && crate::num::spec_is_digit(
                            #[trigger] digits.take(m0)[i],
                        );
                    assert(m0 >= 1);
                    assert(digits.take(m0)[0] == digits[0]);
                    assert(digits[0] == s[0]);
                    assert(crate::num::spec_is_digit(s[0]) || s[0] == '.');
                }
            };
        },
        _ => {},
    }
}

/// A value coerced against a well-formed type is itself well-formed: its
/// struct keys are unique at every nesting level.
pub proof fn lemma_unify_preserves_wf(t: TypeV, v: VarValV)
    requires
        crate::types::type_wf(t),
        spec_unify(t, v) is Some,
    ensures
        crate::types::value_wf(spec_unify(t, v)->Some_0),
    decreases t, v,
{
    match t {
        TypeV::Opt(t0) => {
            lemma_unify_preserves_wf(*t0, v);
        },
        TypeV::Array(et) => {
            match v {
                VarValV::Array(vs) => {
                    lemma_unify_elems_wf(*et, vs);
                    let rs = crate::unify::spec_unify_elems(*et, vs)->Some_0;
                    crate::types::lemma_value_elems_wf_pointwise(rs);
                },
                _ => {},
            }
        },
        TypeV::Struct(fs) => {
            match v {
                VarValV::Struct(raws) => {
                    crate::types::lemma_type_fields_wf_index(fs);
                    lemma_unify_fields_wf(fs, raws);
                    let rs = crate::unify::spec_unify_fields(fs, raws)->Some_0;
                    assert forall|k: int|
                        0 <= k < rs.len() implies crate::types::value_wf(#[trigger] rs[k].1) by {};
                    crate::types::lemma_value_fields_wf_pointwise(rs);
                    assert(crate::types::unique_keys(rs)) by {
                        assert(forall|a: int, b: int|
                            #![trigger rs[a], rs[b]]
                            0 <= a < b < rs.len() ==> rs[a].0 == fs[a].0 && rs[b].0 == fs[b].0
                                && fs[a].0 != fs[b].0);
                    };
                },
                _ => {},
            }
        },
        _ => {},
    }
}

pub proof fn lemma_unify_elems_wf(et: TypeV, vs: Seq<VarValV>)
    requires
        crate::types::type_wf(et),
        crate::unify::spec_unify_elems(et, vs) is Some,
    ensures
        ({
            let rs = crate::unify::spec_unify_elems(et, vs)->Some_0;
            rs.len() == vs.len() && forall|k: int|
                0 <= k < rs.len() ==> crate::types::value_wf(#[trigger] rs[k])
        }),
    decreases et, vs,
{
    if vs.len() > 0 {
        lemma_unify_preserves_wf(et, vs[0]);
        lemma_unify_elems_wf(et, vs.drop_first());
        let r0 = spec_unify(et, vs[0])->Some_0;
        let rest = crate::unify::spec_unify_elems(et, vs.drop_first())->Some_0;
        let rs = crate::unify::spec_unify_elems(et, vs)->Some_0;
        assert(rs == seq![r0] + rest);
        assert(rs[0] == r0);
        assert(forall|k: int| 1 <= k < rs.len() ==> #[trigger] rs[k] == rest[k - 1]);
    }
}

pub proof fn lemma_unify_fields_wf(
    fs: Seq<(Seq<char>, TypeV)>,
    raws: Seq<(Seq<char>, VarValV)>,
)
    requires
        forall|i: int| 0 <= i < fs.len() ==> crate::types::type_wf(#[trigger] fs[i].1),
        crate::unify::spec_unify_fields(fs, raws) is Some,
    ensures
        ({
            let rs = crate::unify::spec_unify_fields(fs, raws)->Some_0;
            rs.len() == fs.len() && forall|k: int|
                0 <= k < rs.len() ==> (#[trigger] rs[k]).0 == fs[k].0 && crate::types::value_wf(
                    rs[k].1,
                )
        }),
    decreases fs, raws,
{
    if fs.len() > 0 {
        let hv = match crate::types::assoc_get(raws, fs[0].0) {
            Option::Some(rv) => spec_unify(fs[0].1, rv),
            Option::None => if fs[0].1 is Opt {
                Option::Some(ValueV::Null)
            } else {
                Option::<ValueV>::None
            },
        };
        match crate::types::assoc_get(raws, fs[0].0) {
            Option::Some(rv) => {
                lemma_unify_preserves_wf(fs[0].1, rv);
            },
            Option::None => {},
        }
        lemma_unify_fields_wf(fs.drop_first(), raws);
        let rest = crate::unify::spec_unify_fields(fs.drop_first(), raws)->Some_0;
        let rs = crate::unify::spec_unify_fields(fs, raws)->Some_0;
        assert(rs == seq![(fs[0].0, hv->Some_0)] + rest);
        assert(rs[0] == (fs[0].0, hv->Some_0));
        assert(forall|k: int| 1 <= k < rs.len() ==> #[trigger] rs[k] == rest[k - 1]);
        assert(forall|k: int|
            1 <= k < rs.len() ==> #[trigger] fs.drop_first()[k - 1] == fs[k]);
    }
}

} // verus!
