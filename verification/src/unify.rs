use vstd::prelude::*;

verus! {

broadcast use vstd::std_specs::vec::axiom_vec_index_decreases, vstd::std_specs::vec::axiom_vec_decreases_to_view, vstd::seq::axiom_seq_index_decreases, vstd::seq::axiom_seq_subrange_decreases;

use crate::config::ast::{Config, Var, VarV};
use crate::liberror::{EnvlError, EnvlLibError, convert_envl_lib_error};
use crate::num::{spec_is_float, spec_parse_i64, spec_parse_u64, is_float_literal, parse_i64,
    parse_u64};
use crate::types::{Position, PositionV, Type, TypeV, Value, ValueV, assoc_get, type_fields_v,
    type_v, value_elems_v, value_fields_v, value_v, lemma_type_fields_v, lemma_assoc_get_some,
    lemma_assoc_get_none, lemma_value_elems_v_push, lemma_value_fields_v_push};
use crate::vars::variable::{VarValV, Variable, VariableV, VariableValue, var_val_elems_v,
    var_val_fields_v, var_val_v, lemma_var_val_elems_v, lemma_var_val_fields_v};

/// Structural coercion of an untyped literal against a declared type:
/// `Null` accepts anything as `Null`; each primitive leaf accepts exactly
/// the matching literal kind (a numeric literal must have the declared
/// numeric shape and fit the declared width); an array coerces every
/// element against the element type in order; a struct requires every
/// assigned key to be declared, and every declared field to be present or
/// of option type (then `Null`); an option unwraps one level. `None` is a
/// type mismatch.
pub open spec fn spec_unify(t: TypeV, v: VarValV) -> Option<ValueV>
    decreases t, v,
{
    match t {
        TypeV::Null => Option::Some(ValueV::Null),
        TypeV::Str => match v {
            VarValV::Str(s) => Option::Some(ValueV::Str(s)),
            _ => Option::None,
        },
        TypeV::Chr => match v {
            VarValV::Chr(c) => Option::Some(ValueV::Chr(c)),
            _ => Option::None,
        },
        TypeV::Flt => match v {
            VarValV::Num(s) => if spec_is_float(s) {
                Option::Some(ValueV::Flt(s))
            } else {
                Option::None
            },
            _ => Option::None,
        },
        TypeV::Int => match v {
            VarValV::Num(s) => match spec_parse_i64(s) {
                Option::Some(i) => Option::Some(ValueV::Int(i)),
                Option::None => Option::None,
            },
            _ => Option::None,
        },
        TypeV::Uint => match v {
            VarValV::Num(s) => match spec_parse_u64(s) {
                Option::Some(u) => Option::Some(ValueV::Uint(u)),
                Option::None => Option::None,
            },
            _ => Option::None,
        },
        TypeV::Bool => match v {
            VarValV::Bool(b) => Option::Some(ValueV::Bool(b)),
            _ => Option::None,
        },
        TypeV::Opt(t0) => spec_unify(*t0, v),
        TypeV::Array(et) => match v {
            VarValV::Array(vs) => match spec_unify_elems(*et, vs) {
                Option::Some(rs) => Option::Some(ValueV::Array(rs)),
                Option::None => Option::None,
            },
            _ => Option::None,
        },
        TypeV::Struct(fs) => match v {
            VarValV::Struct(raws) => if keys_declared(fs, raws) {
                match spec_unify_fields(fs, raws) {
                    Option::Some(rs) => Option::Some(ValueV::Struct(rs)),
                    Option::None => Option::None,
                }
            } else {
                Option::None
            },
            _ => Option::None,
        },
    }
}

pub open spec fn spec_unify_elems(et: TypeV, vs: Seq<VarValV>) -> Option<Seq<ValueV>>
    decreases et, vs,
{
    if vs.len() == 0 {
        Option::Some(Seq::empty())
    } else {
        match spec_unify(et, vs[0]) {
            Option::Some(r0) => match spec_unify_elems(et, vs.drop_first()) {
                Option::Some(rest) => Option::Some(seq![r0] + rest),
                Option::None => Option::None,
            },
            Option::None => Option::None,
        }
    }
}

/// Every assigned key names a declared field.
pub open spec fn keys_declared(
    fs: Seq<(Seq<char>, TypeV)>,
    raws: Seq<(Seq<char>, VarValV)>,
) -> bool {
    forall|k: int|
        0 <= k < raws.len() ==> crate::types::assoc_has(fs, (#[trigger] raws[k]).0)
}

pub open spec fn spec_unify_fields(
    fs: Seq<(Seq<char>, TypeV)>,
    raws: Seq<(Seq<char>, VarValV)>,
) -> Option<Seq<(Seq<char>, ValueV)>>
    decreases fs, raws,
{
    if fs.len() == 0 {
        Option::Some(Seq::empty())
    } else {
        let head = match assoc_get(raws, fs[0].0) {
            Option::Some(rv) => spec_unify(fs[0].1, rv),
            Option::None => if fs[0].1 is Opt {
                Option::Some(ValueV::Null)
            } else {
                Option::None
            },
        };
        match head {
            Option::Some(hv) => match spec_unify_fields(fs.drop_first(), raws) {
                Option::Some(rest) => Option::Some(seq![(fs[0].0, hv)] + rest),
                Option::None => Option::None,
            },
            Option::None => Option::None,
        }
    }
}

fn invalid_type_error(position: &Position) -> (r: EnvlError)
    ensures
        r.kind is Lib,
        r.message@ == "Invalid type"@,
        r.position is Some && r.position->0@ == position@,
{
    EnvlError {
        message: String::from_str("Invalid type"),
        position: Some(position.dup()),
        kind: crate::liberror::ErrorKind::Lib(
            EnvlLibError { message: String::from_str("Invalid type") },
        ),
    }
}

/// Coerces one assigned literal against one declared type, exactly as
/// `spec_unify` says; an error is the unifier's invalid-type diagnostic,
/// positioned at the offending assignment.
pub fn parse_var(t: &Type, v: &VariableValue, position: &Position) -> (r: Result<Value, EnvlError>)
    ensures
        match r {
            Result::Ok(val) => spec_unify(type_v(*t), var_val_v(*v)) == Option::Some(value_v(val)),
            Result::Err(e) => spec_unify(type_v(*t), var_val_v(*v)) is None && e.kind is Lib
                && e.message@ == "Invalid type"@ && e.position is Some && e.position->0@
                == position@,
        },
    decreases t, v,
{
    match t {
        Type::Null => Ok(Value::Null),
        Type::String => match v {
            VariableValue::String(s) => Ok(Value::String(s.clone())),
            _ => Err(invalid_type_error(position)),
        },
        Type::Char => match v {
            VariableValue::Char(c) => Ok(Value::Char(*c)),
            _ => Err(invalid_type_error(position)),
        },
        Type::Float => match v {
            VariableValue::Number(s) => {
                if is_float_literal(s.as_str()) {
                    Ok(Value::Float(s.clone()))
                } else {
                    Err(invalid_type_error(position))
                }
            },
            _ => Err(invalid_type_error(position)),
        },
        Type::Int => match v {
            VariableValue::Number(s) => match parse_i64(s.as_str()) {
                Some(i) => Ok(Value::Int(i)),
                None => Err(invalid_type_error(position)),
            },
            _ => Err(invalid_type_error(position)),
        },
        Type::Uint => match v {
            VariableValue::Number(s) => match parse_u64(s.as_str()) {
                Some(u) => Ok(Value::Uint(u)),
                None => Err(invalid_type_error(position)),
            },
            _ => Err(invalid_type_error(position)),
        },
        Type::Bool => match v {
            VariableValue::Bool(b) => Ok(Value::Bool(*b)),
            _ => Err(invalid_type_error(position)),
        },
        Type::Option(t0) => parse_var(t0, v, position),
        Type::Array(bx) => match v {
            VariableValue::Array(vs) => {
                let ghost et = type_v(**bx);
                let ghost vs_v = var_val_elems_v(vs@);
                proof {
                    lemma_var_val_elems_v(vs@);
                }
                let mut out: Vec<Value> = Vec::new();
                let n = vs.len();
                proof {
                    assert(vs_v.skip(0) =~= vs_v);
                    assert(value_elems_v(out@) =~= Seq::<ValueV>::empty());
                    if spec_unify_elems(et, vs_v) is Some {
                        assert(value_elems_v(out@) + spec_unify_elems(et, vs_v)->Some_0
                            =~= spec_unify_elems(et, vs_v)->Some_0);
                    }
                }
                let mut k: usize = 0;
                while k < n
                    invariant
                        *t == Type::Array(*bx),
                        *v == VariableValue::Array(*vs),
                        et == type_v(**bx),
                        vs_v == var_val_elems_v(vs@),
                        vs_v.len() == vs@.len(),
                        forall|i: int| 0 <= i < vs@.len() ==> vs_v[i] == var_val_v(#[trigger] vs@[i]),
                        n == vs@.len(),
                        0 <= k <= n,
                        spec_unify_elems(et, vs_v) == (match spec_unify_elems(
                            et,
                            vs_v.skip(k as int),
                        ) {
                            Option::Some(rest) => Option::Some(value_elems_v(out@) + rest),
                            Option::None => Option::<Seq<ValueV>>::None,
                        }),
                    decreases n - k,
                {
                    proof {
                        assert(decreases_to!(*t => t->Array_0));
                        assert(vs_v.skip(k as int).drop_first() =~= vs_v.skip(k + 1 as int));
                        assert(vs_v.skip(k as int)[0] == vs_v[k as int]);
                    }
                    match parse_var(bx, &vs[k], position) {
                        Ok(val) => {
                            let ghost out0 = out@;
                            proof {
                                lemma_value_elems_v_push(out0, val);
                            }
                            out.push(val);
                            proof {
                                assert(value_elems_v(out@) == value_elems_v(out0).push(
                                    value_v(val),
                                ));
                                if spec_unify_elems(et, vs_v.skip(k + 1 as int)) is Some {
                                    let rest = spec_unify_elems(
                                        et,
                                        vs_v.skip(k + 1 as int),
                                    )->Some_0;
                                    assert(value_elems_v(out@) + rest =~= value_elems_v(out0) + (
                                    seq![value_v(val)] + rest));
                                }
                            }
                            k += 1;
                        },
                        Err(e) => {
                            return Err(e);
                        },
                    }
                }
                proof {
                    assert(vs_v.skip(n as int) =~= Seq::<VarValV>::empty());
                    assert(value_elems_v(out@) + Seq::<ValueV>::empty() =~= value_elems_v(out@));
                }
                Ok(Value::Array(out))
            },
            _ => Err(invalid_type_error(position)),
        },
        Type::Struct(fs) => match v {
            VariableValue::Struct(raws) => {
                let ghost fs_v = type_fields_v(fs@);
                let ghost raws_v = var_val_fields_v(raws@);
                proof {
                    lemma_type_fields_v(fs@);
                    lemma_var_val_fields_v(raws@);
                }
                // every assigned key must be declared
                let rn = raws.len();
                let mut k: usize = 0;
                while k < rn
                    invariant
                        *t == Type::Struct(*fs),
                        *v == VariableValue::Struct(*raws),
                        fs_v == type_fields_v(fs@),
                        raws_v == var_val_fields_v(raws@),
                        fs_v.len() == fs@.len(),
                        raws_v.len() == raws@.len(),
                        forall|i: int|
                            0 <= i < fs@.len() ==> #[trigger] fs_v[i] == (
                                fs@[i].0@,
                                type_v(fs@[i].1),
                            ),
                        forall|i: int|
                            0 <= i < raws@.len() ==> #[trigger] raws_v[i] == (
                                raws@[i].0@,
                                var_val_v(raws@[i].1),
                            ),
                        rn == raws@.len(),
                        0 <= k <= rn,
                        forall|i: int|
                            0 <= i < k ==> crate::types::assoc_has(fs_v, (#[trigger] raws_v[i]).0),
                    decreases rn - k,
                {
                    match crate::types::assoc_find_idx(fs, &raws[k].0) {
                        Some(j) => {
                            proof {
                                assert(forall|a: int|
                                    0 <= a < j ==> (#[trigger] fs_v[a]).0 != raws_v[k as int].0);
                                lemma_assoc_get_some(fs_v, raws_v[k as int].0, j as int);
                            }
                        },
                        None => {
                            proof {
                                assert(forall|a: int|
                                    0 <= a < fs_v.len() ==> (#[trigger] fs_v[a]).0
                                        != raws_v[k as int].0);
                                lemma_assoc_get_none(fs_v, raws_v[k as int].0);
                                assert(!keys_declared(fs_v, raws_v));
                            }
                            return Err(invalid_type_error(position));
                        },
                    }
                    k += 1;
                }
                let ghost all_declared = keys_declared(fs_v, raws_v);
                proof {
                    assert(all_declared);
                }
                // coerce every declared field
                let fn_ = fs.len();
                let mut out: Vec<(String, Value)> = Vec::new();
                proof {
                    assert(fs_v.skip(0) =~= fs_v);
                    assert(value_fields_v(out@) =~= Seq::<(Seq<char>, ValueV)>::empty());
                    if spec_unify_fields(fs_v, raws_v) is Some {
                        assert(value_fields_v(out@) + spec_unify_fields(fs_v, raws_v)->Some_0
                            =~= spec_unify_fields(fs_v, raws_v)->Some_0);
                    }
                }
                let mut i: usize = 0;
                while i < fn_
                    invariant
                        *t == Type::Struct(*fs),
                        *v == VariableValue::Struct(*raws),
                        fs_v == type_fields_v(fs@),
                        raws_v == var_val_fields_v(raws@),
                        fs_v.len() == fs@.len(),
                        raws_v.len() == raws@.len(),
                        forall|a: int|
                            0 <= a < fs@.len() ==> #[trigger] fs_v[a] == (
                                fs@[a].0@,
                                type_v(fs@[a].1),
                            ),
                        forall|a: int|
                            0 <= a < raws@.len() ==> #[trigger] raws_v[a] == (
                                raws@[a].0@,
                                var_val_v(raws@[a].1),
                            ),
                        fn_ == fs@.len(),
                        0 <= i <= fn_,
                        spec_unify_fields(fs_v, raws_v) == (match spec_unify_fields(
                            fs_v.skip(i as int),
                            raws_v,
                        ) {
                            Option::Some(rest) => Option::Some(value_fields_v(out@) + rest),
                            Option::None => Option::<Seq<(Seq<char>, ValueV)>>::None,
                        }),
                    decreases fn_ - i,
                {
                    proof {
                        assert(decreases_to!(*t => t->Struct_0));
                        assert(fs_v.skip(i as int).drop_first() =~= fs_v.skip(i + 1 as int));
                        assert(fs_v.skip(i as int)[0] == fs_v[i as int]);
                    }
                    let name = &fs[i].0;
                    let head: Value = match crate::types::assoc_find_idx(raws, name) {
                        Some(ridx) => {
                            proof {
                                assert(forall|a: int|
                                    0 <= a < ridx ==> (#[trigger] raws_v[a]).0 != fs_v[i as int].0);
                                lemma_assoc_get_some(raws_v, fs_v[i as int].0, ridx as int);
                            }
                            match parse_var(&fs[i].1, &raws[ridx].1, position) {
                                Ok(val) => val,
                                Err(e) => {
                                    return Err(e);
                                },
                            }
                        },
                        None => {
                            proof {
                                assert(forall|a: int|
                                    0 <= a < raws_v.len() ==> (#[trigger] raws_v[a]).0 != fs_v[i as int].0);
                                lemma_assoc_get_none(raws_v, fs_v[i as int].0);
                            }
                            if matches!(&fs[i].1, Type::Option(_)) {
                                Value::Null
                            } else {
                                return Err(invalid_type_error(position));
                            }
                        },
                    };
                    let ghost head_v = value_v(head);
                    proof {
                        assert(match assoc_get(raws_v, fs_v[i as int].0) {
                            Option::Some(rv) => spec_unify(fs_v[i as int].1, rv)
                                == Option::Some(head_v),
                            Option::None => fs_v[i as int].1 is Opt && head_v == ValueV::Null,
                        });
                    }
                    let key = fs[i].0.clone();
                    let ghost out0 = out@;
                    proof {
                        lemma_value_fields_v_push(out0, (key, head));
                    }
                    out.push((key, head));
                    proof {
                        assert(value_fields_v(out@) == value_fields_v(out0).push(
                            (fs_v[i as int].0, head_v),
                        ));
                        if spec_unify_fields(fs_v.skip(i + 1 as int), raws_v) is Some {
                            let rest = spec_unify_fields(fs_v.skip(i + 1 as int), raws_v)->Some_0;
                            assert(value_fields_v(out@) + rest =~= value_fields_v(out0) + (seq![
                                (fs_v[i as int].0, head_v),
                            ] + rest));
                        }
                    }
                    i += 1;
                }
                proof {
                    assert(fs_v.skip(fn_ as int) =~= Seq::<(Seq<char>, TypeV)>::empty());
                    assert(value_fields_v(out@) + Seq::<(Seq<char>, ValueV)>::empty()
                        =~= value_fields_v(out@));
                }
                Ok(Value::Struct(out))
            },
            _ => Err(invalid_type_error(position)),
        },
    }
}

/// One resolved entry of the environment: the coerced value, the declared
/// type, both fallback values, the raw assigned literal when one existed,
/// and the position of the assignment (or of the declaration when none).
#[derive(Debug)]
pub struct VarData {
    pub value: Value,
    pub v_type: Type,
    pub default_value: Value,
    pub actions_value: Value,
    pub basic_value: Option<VariableValue>,
    pub position: Position,
}

/// Mathematical model of a `VarData`.
pub ghost struct VarDataV {
    pub value: ValueV,
    pub v_type: TypeV,
    pub default_value: ValueV,
    pub actions_value: ValueV,
    pub basic_value: Option<VarValV>,
    pub position: PositionV,
}

impl View for VarData {
    type V = VarDataV;

    open spec fn view(&self) -> VarDataV {
        VarDataV {
            value: value_v(self.value),
            v_type: type_v(self.v_type),
            default_value: value_v(self.default_value),
            actions_value: value_v(self.actions_value),
            basic_value: match self.basic_value {
                Option::Some(b) => Option::Some(var_val_v(b)),
                Option::None => Option::None,
            },
            position: self.position@,
        }
    }
}

/// The fully resolved environment, in declaration order.
pub type VariableHashMap = Vec<(String, VarData)>;

/// The first assignment bearing `name`, if any.
pub open spec fn find_var(assigns: Seq<VariableV>, name: Seq<char>) -> Option<VariableV>
    decreases assigns.len(),
{
    if assigns.len() == 0 {
        Option::None
    } else if assigns[0].name == name {
        Option::Some(assigns[0])
    } else {
        find_var(assigns.drop_first(), name)
    }
}

pub proof fn lemma_find_var_some(assigns: Seq<VariableV>, name: Seq<char>, i: int)
    requires
        0 <= i < assigns.len(),
        assigns[i].name == name,
        forall|j: int| 0 <= j < i ==> (#[trigger] assigns[j]).name != name,
    ensures
        find_var(assigns, name) == Option::Some(assigns[i]),
    decreases assigns.len(),
{
    if i > 0 {
        lemma_find_var_some(assigns.drop_first(), name, i - 1);
    }
}

pub proof fn lemma_find_var_none(assigns: Seq<VariableV>, name: Seq<char>)
    requires
        forall|j: int| 0 <= j < assigns.len() ==> (#[trigger] assigns[j]).name != name,
    ensures
        find_var(assigns, name) is None,
    decreases assigns.len(),
{
    if assigns.len() > 0 {
        lemma_find_var_none(assigns.drop_first(), name);
    }
}

/// The models of an assignment list.
pub open spec fn assigns_v(s: Seq<Variable>) -> Seq<VariableV> {
    s.map(|i: int, x: Variable| x@)
}

/// What one resolved entry must hold: the declared type and both fallback
/// values are carried through unchanged; with an assignment present, the
/// value is its coercion and the raw literal and its position are kept;
/// without one, the declared type is an option, the value is `Null`, and
/// the declaration's position is kept.
pub open spec fn entry_ok(
    name: Seq<char>,
    var: VarV,
    assigns: Seq<VariableV>,
    data: VarDataV,
) -> bool {
    &&& data.v_type == var.v_type
    &&& data.default_value == var.default_value
    &&& data.actions_value == var.actions_value
    &&& match find_var(assigns, name) {
        Option::Some(a) => spec_unify(var.v_type, a.value) == Option::Some(data.value)
            && data.basic_value == Option::Some(a.value) && data.position == a.position,
        Option::None => var.v_type is Opt && data.value == ValueV::Null && data.basic_value
            is None && data.position == var.position,
    }
}

/// Whether one declaration can resolve at all against the assignments.
pub open spec fn entry_possible(name: Seq<char>, var: VarV, assigns: Seq<VariableV>) -> bool {
    match find_var(assigns, name) {
        Option::Some(a) => spec_unify(var.v_type, a.value) is Some,
        Option::None => var.v_type is Opt,
    }
}

fn not_found_error(name: &String, position: &Position) -> (r: EnvlError)
    ensures
        r.kind is Lib,
        r.message@ == name@ + " is not found"@,
        r.position is Some && r.position->0@ == position@,
{
    EnvlError {
        message: name.clone().concat(" is not found"),
        position: Some(position.dup()),
        kind: crate::liberror::ErrorKind::Lib(
            EnvlLibError { message: name.clone().concat(" is not found") },
        ),
    }
}

/// What the diagnostic of one unresolvable declaration holds: a failed
/// coercion carries the invalid-type message at the assignment's position;
/// a missing non-option declaration names itself, at its own position.
pub open spec fn entry_error(name: Seq<char>, var: VarV, assigns: Seq<VariableV>, e: EnvlError)
    -> bool {
    &&& e.kind is Lib
    &&& match find_var(assigns, name) {
        Option::Some(a) => e.message@ == "Invalid type"@ && e.position is Some && e.position->0@
            == a.position,
        Option::None => e.message@ == name + " is not found"@ && e.position is Some
            && e.position->0@ == var.position,
    }
}

/// Builds the environment: resolves every declaration of the schema
/// against the assignment list, in declaration order, stopping at the
/// first declaration that cannot resolve; the returned diagnostic is that
/// first failing declaration's own.
pub fn unify(config: &Config, vars: &Vec<Variable>) -> (r: Result<VariableHashMap, EnvlError>)
    ensures
        match r {
            Result::Ok(env) => env@.len() == config.vars@.len() && (forall|i: int|
                0 <= i < env@.len() ==> (#[trigger] env@[i]).0@ == config.vars@[i].0@ && entry_ok(
                    config.vars@[i].0@,
                    config.vars@[i].1@,
                    assigns_v(vars@),
                    env@[i].1@,
                )),
            Result::Err(e) => exists|i: int|
                0 <= i < config.vars@.len() && !entry_possible(
                    (#[trigger] config.vars@[i]).0@,
                    config.vars@[i].1@,
                    assigns_v(vars@),
                ) && (forall|j: int|
                    0 <= j < i ==> entry_possible(
                        (#[trigger] config.vars@[j]).0@,
                        config.vars@[j].1@,
                        assigns_v(vars@),
                    )) && entry_error(
                    config.vars@[i].0@,
                    config.vars@[i].1@,
                    assigns_v(vars@),
                    e,
                ),
        },
{
    let ghost asg = assigns_v(vars@);
    proof {
        assert(forall|i: int| 0 <= i < vars@.len() ==> #[trigger] asg[i] == vars@[i]@);
    }
    let cn = config.vars.len();
    let mut out: VariableHashMap = Vec::new();
    let mut k: usize = 0;
    while k < cn
        invariant
            asg == assigns_v(vars@),
            asg.len() == vars@.len(),
            forall|i: int| 0 <= i < vars@.len() ==> #[trigger] asg[i] == vars@[i]@,
            cn == config.vars@.len(),
            0 <= k <= cn,
            out@.len() == k,
            forall|i: int|
                0 <= i < k ==> (#[trigger] out@[i]).0@ == config.vars@[i].0@ && entry_ok(
                    config.vars@[i].0@,
                    config.vars@[i].1@,
                    asg,
                    out@[i].1@,
                ),
            forall|i: int|
                0 <= i < k ==> entry_possible(
                    (#[trigger] config.vars@[i]).0@,
                    config.vars@[i].1@,
                    asg,
                ),
        decreases cn - k,
    {
        let name = config.vars[k].0.clone();
        let var = &config.vars[k].1;

        // first assignment bearing this name, if any
        let vn = vars.len();
        let mut j: usize = 0;
        let mut found: Option<usize> = None;
        while j < vn && found.is_none()
            invariant
                vn == vars@.len(),
                0 <= j <= vn,
                name@ == config.vars@[k as int].0@,
                0 <= k < config.vars@.len(),
                asg.len() == vars@.len(),
                forall|i: int| 0 <= i < vars@.len() ==> #[trigger] asg[i] == vars@[i]@,
                match found {
                    Option::Some(f) => 0 <= f < j <= vn && asg[f as int].name == name@ && (forall|
                        a: int,
                    | 0 <= a < f ==> (#[trigger] asg[a]).name != name@),
                    Option::None => forall|a: int| 0 <= a < j ==> (#[trigger] asg[a]).name != name@,
                },
            decreases vn - j,
        {
            if vars[j].name == name {
                found = Some(j);
            }
            j += 1;
        }

        match found {
            Some(f) => {
                proof {
                    lemma_find_var_some(asg, name@, f as int);
                }
                match parse_var(&var.v_type, &vars[f].value, &vars[f].position) {
                    Ok(value) => {
                        let basic = vars[f].value.dup();
                        let position = vars[f].position.dup();
                        out.push(
                            (
                                name,
                                VarData {
                                    value,
                                    v_type: var.v_type.dup(),
                                    default_value: var.default_value.dup(),
                                    actions_value: var.actions_value.dup(),
                                    basic_value: Some(basic),
                                    position,
                                },
                            ),
                        );
                    },
                    Err(e) => {
                        proof {
                            assert(!entry_possible(
                                (config.vars@[k as int]).0@,
                                config.vars@[k as int].1@,
                                assigns_v(vars@),
                            ));
                            assert(entry_error(
                                config.vars@[k as int].0@,
                                config.vars@[k as int].1@,
                                assigns_v(vars@),
                                e,
                            ));
                        }
                        return Err(e);
                    },
                }
            },
            None => {
                proof {
                    lemma_find_var_none(asg, name@);
                }
                if matches!(&var.v_type, Type::Option(_)) {
                    out.push(
                        (
                            name,
                            VarData {
                                value: Value::Null,
                                v_type: var.v_type.dup(),
                                default_value: var.default_value.dup(),
                                actions_value: var.actions_value.dup(),
                                basic_value: None,
                                position: var.position.dup(),
                            },
                        ),
                    );
                } else {
                    let e = not_found_error(&name, &var.position);
                    proof {
                        assert(!(type_v(var.v_type) is Opt));
                        assert(!entry_possible(
                            (config.vars@[k as int]).0@,
                            config.vars@[k as int].1@,
                            assigns_v(vars@),
                        ));
                        assert(entry_error(
                            config.vars@[k as int].0@,
                            config.vars@[k as int].1@,
                            assigns_v(vars@),
                            e,
                        ));
                    }
                    return Err(e);
                }
            },
        }
        k += 1;
    }
    Ok(out)
}

/// An entry is ill-formed when it resolved to `Null` and its fallback
/// cannot stand in: a `Null` default requires an option type, and a
/// non-`Null` default must be generable for the declared type.
pub open spec fn entry_bad(name: Seq<char>, d: VarDataV) -> bool {
    d.value is Null && match d.default_value {
        ValueV::Null => !(d.v_type is Opt),
        _ => crate::generator::spec_gen_value(name, d.v_type, d.default_value) is Err,
    }
}

/// Confirms that every `Null` entry of the environment is backed by an
/// option type or a generable fallback value; the first offender fails.
pub fn check_envl_vars(hm: &VariableHashMap) -> (r: Result<(), EnvlLibError>)
    ensures
        match r {
            Result::Ok(_) => forall|i: int|
                0 <= i < hm@.len() ==> !entry_bad((#[trigger] hm@[i]).0@, hm@[i].1@),
            Result::Err(_) => exists|i: int|
                0 <= i < hm@.len() && entry_bad((#[trigger] hm@[i]).0@, hm@[i].1@),
        },
{
    let n = hm.len();
    let mut i: usize = 0;
    while i < n
        invariant
            n == hm@.len(),
            0 <= i <= n,
            forall|a: int| 0 <= a < i ==> !entry_bad((#[trigger] hm@[a]).0@, hm@[a].1@),
        decreases n - i,
    {
        let d = &hm[i].1;
        if matches!(&d.value, Value::Null) {
            if matches!(&d.default_value, Value::Null) {
                if !matches!(&d.v_type, Type::Option(_)) {
                    proof {
                        assert(entry_bad(hm@[i as int].0@, hm@[i as int].1@));
                    }
                    return Err(EnvlLibError { message: String::from_str("Invalid Type") });
                }
            } else {
                match crate::generator::gen_value(&hm[i].0, &d.v_type, &d.default_value) {
                    Ok(_) => {},
                    Err(_) => {
                        proof {
                            assert(entry_bad(hm@[i as int].0@, hm@[i as int].1@));
                        }
                        return Err(EnvlLibError { message: String::from_str("Invalid Type") });
                    },
                }
            }
        }
        proof {
            assert(!entry_bad(hm@[i as int].0@, hm@[i as int].1@));
        }
        i += 1;
    }
    Ok(())
}

} // verus!
