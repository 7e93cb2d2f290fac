use vstd::prelude::*;

verus! {

broadcast use vstd::std_specs::vec::axiom_vec_index_decreases, vstd::std_specs::vec::axiom_vec_decreases_to_view, vstd::seq::axiom_seq_index_decreases, vstd::seq::axiom_seq_subrange_decreases;

use crate::types::{Position, PositionV, unique_keys};

/// An untyped literal from a values source. The values grammar declares no
/// types, so a numeric literal keeps its digit text until unification
/// coerces it against the declared type.
#[derive(Debug, PartialEq)]
pub enum VariableValue {
    String(String),
    Number(String),
    Bool(bool),
    Char(char),
    Array(Vec<VariableValue>),
    Struct(Vec<(String, VariableValue)>),
}

/// Mathematical model of a `VariableValue`.
pub ghost enum VarValV {
    Str(Seq<char>),
    Num(Seq<char>),
    Bool(bool),
    Chr(char),
    Array(Seq<VarValV>),
    Struct(Seq<(Seq<char>, VarValV)>),
}

/// Model of a `VariableValue`.
pub open spec fn var_val_v(v: VariableValue) -> VarValV
    decreases v,
{
    match v {
        VariableValue::String(s) => VarValV::Str(s@),
        VariableValue::Number(s) => VarValV::Num(s@),
        VariableValue::Bool(b) => VarValV::Bool(b),
        VariableValue::Char(c) => VarValV::Chr(c),
        VariableValue::Array(vs) => VarValV::Array(var_val_elems_v(vs@)),
        VariableValue::Struct(fields) => VarValV::Struct(var_val_fields_v(fields@)),
    }
}

pub open spec fn var_val_elems_v(s: Seq<VariableValue>) -> Seq<VarValV>
    decreases s,
{
    if s.len() == 0 {
        Seq::empty()
    } else {
        seq![var_val_v(s[0])] + var_val_elems_v(s.drop_first())
    }
}

pub open spec fn var_val_fields_v(s: Seq<(String, VariableValue)>) -> Seq<(Seq<char>, VarValV)>
    decreases s,
{
    if s.len() == 0 {
        Seq::empty()
    } else {
        seq![(s[0].0@, var_val_v(s[0].1))] + var_val_fields_v(s.drop_first())
    }
}

pub proof fn lemma_var_val_elems_v(s: Seq<VariableValue>)
    ensures
        var_val_elems_v(s).len() == s.len(),
        forall|i: int| 0 <= i < s.len() ==> #[trigger] var_val_elems_v(s)[i] == var_val_v(s[i]),
    decreases s,
{
    if s.len() > 0 {
        lemma_var_val_elems_v(s.drop_first());
    }
}

pub proof fn lemma_var_val_fields_v(s: Seq<(String, VariableValue)>)
    ensures
        var_val_fields_v(s).len() == s.len(),
        forall|i: int|
            0 <= i < s.len() ==> #[trigger] var_val_fields_v(s)[i] == (s[i].0@, var_val_v(s[i].1)),
    decreases s,
{
    if s.len() > 0 {
        lemma_var_val_fields_v(s.drop_first());
    }
}

impl View for VariableValue {
    type V = VarValV;

    open spec fn view(&self) -> VarValV {
        var_val_v(*self)
    }
}

pub proof fn lemma_var_val_elems_v_push(s: Seq<VariableValue>, x: VariableValue)
    ensures
        var_val_elems_v(s.push(x)) == var_val_elems_v(s).push(var_val_v(x)),
{
    lemma_var_val_elems_v(s.push(x));
    lemma_var_val_elems_v(s);
    assert(var_val_elems_v(s.push(x)) =~= var_val_elems_v(s).push(var_val_v(x)));
}

pub proof fn lemma_var_val_fields_v_push(s: Seq<(String, VariableValue)>, x: (String, VariableValue))
    ensures
        var_val_fields_v(s.push(x)) == var_val_fields_v(s).push((x.0@, var_val_v(x.1))),
{
    lemma_var_val_fields_v(s.push(x));
    lemma_var_val_fields_v(s);
    assert(var_val_fields_v(s.push(x)) =~= var_val_fields_v(s).push((x.0@, var_val_v(x.1))));
}

/// Equal element models give equal list models.
pub proof fn lemma_var_val_elems_v_congr(a: Seq<VariableValue>, b: Seq<VariableValue>)
    requires
        a.len() == b.len(),
        forall|k: int| 0 <= k < a.len() ==> var_val_v(#[trigger] a[k]) == var_val_v(b[k]),
    ensures
        var_val_elems_v(a) == var_val_elems_v(b),
{
    lemma_var_val_elems_v(a);
    lemma_var_val_elems_v(b);
    assert(var_val_elems_v(a) =~= var_val_elems_v(b));
}

/// Equal keys and equal element models give equal field-list models.
pub proof fn lemma_var_val_fields_v_congr(
    a: Seq<(String, VariableValue)>,
    b: Seq<(String, VariableValue)>,
)
    requires
        a.len() == b.len(),
        forall|k: int|
            0 <= k < a.len() ==> (#[trigger] a[k]).0@ == b[k].0@ && var_val_v(a[k].1) == var_val_v(
                b[k].1,
            ),
    ensures
        var_val_fields_v(a) == var_val_fields_v(b),
{
    lemma_var_val_fields_v(a);
    lemma_var_val_fields_v(b);
    assert(var_val_fields_v(a) =~= var_val_fields_v(b));
}

impl VariableValue {
    /// An explicit deep copy whose contract says the copy models the
    /// original.
    pub fn dup(&self) -> (r: VariableValue)
        ensures
            r@ == self@,
        decreases self,
    {
        match self {
            VariableValue::String(s) => VariableValue::String(s.clone()),
            VariableValue::Number(s) => VariableValue::Number(s.clone()),
            VariableValue::Bool(b) => VariableValue::Bool(*b),
            VariableValue::Char(c) => VariableValue::Char(*c),
            VariableValue::Array(vs) => {
                let mut out: Vec<VariableValue> = Vec::new();
                let n = vs.len();
                let mut i: usize = 0;
                while i < n
                    invariant
                        *self == VariableValue::Array(*vs),
                        n == vs@.len(),
                        0 <= i <= n,
                        out@.len() == i,
                        forall|k: int|
                            0 <= k < i ==> var_val_v(#[trigger] out@[k]) == var_val_v(vs@[k]),
                    decreases n - i,
                {
                    proof {
                        assert(decreases_to!(*self => self->Array_0));
                        assert(self->Array_0 == *vs);
                    }
                    let e = vs[i].dup();
                    out.push(e);
                    i += 1;
                }
                proof {
                    lemma_var_val_elems_v_congr(out@, vs@);
                }
                VariableValue::Array(out)
            },
            VariableValue::Struct(fields) => {
                let mut out: Vec<(String, VariableValue)> = Vec::new();
                let n = fields.len();
                let mut i: usize = 0;
                while i < n
                    invariant
                        *self == VariableValue::Struct(*fields),
                        n == fields@.len(),
                        0 <= i <= n,
                        out@.len() == i,
                        forall|k: int|
                            0 <= k < i ==> (#[trigger] out@[k]).0@ == fields@[k].0@ && var_val_v(
                                out@[k].1,
                            ) == var_val_v(fields@[k].1),
                    decreases n - i,
                {
                    proof {
                        assert(decreases_to!(*self => self->Struct_0));
                        assert(self->Struct_0 == *fields);
                    }
                    let name = fields[i].0.clone();
                    let v = fields[i].1.dup();
                    out.push((name, v));
                    i += 1;
                }
                proof {
                    lemma_var_val_fields_v_congr(out@, fields@);
                }
                VariableValue::Struct(out)
            },
        }
    }
}

/// Struct keys are unique at every nesting level.
pub open spec fn var_val_wf(v: VarValV) -> bool
    decreases v,
{
    match v {
        VarValV::Array(vs) => var_val_elems_wf(vs),
        VarValV::Struct(fields) => unique_keys(fields) && var_val_fields_wf(fields),
        _ => true,
    }
}

pub open spec fn var_val_elems_wf(s: Seq<VarValV>) -> bool
    decreases s,
{
    if s.len() == 0 {
        true
    } else {
        var_val_wf(s[0]) && var_val_elems_wf(s.drop_first())
    }
}

pub open spec fn var_val_fields_wf(s: Seq<(Seq<char>, VarValV)>) -> bool
    decreases s,
{
    if s.len() == 0 {
        true
    } else {
        var_val_wf(s[0].1) && var_val_fields_wf(s.drop_first())
    }
}

pub proof fn lemma_var_val_elems_wf_pointwise(s: Seq<VarValV>)
    requires
        forall|i: int| 0 <= i < s.len() ==> var_val_wf(#[trigger] s[i]),
    ensures
        var_val_elems_wf(s),
    decreases s,
{
    if s.len() > 0 {
        assert(forall|i: int|
            0 <= i < s.drop_first().len() ==> #[trigger] s.drop_first()[i] == s[i + 1]);
        lemma_var_val_elems_wf_pointwise(s.drop_first());
    }
}

pub proof fn lemma_var_val_fields_wf_pointwise(s: Seq<(Seq<char>, VarValV)>)
    requires
        forall|i: int| 0 <= i < s.len() ==> var_val_wf(#[trigger] s[i].1),
    ensures
        var_val_fields_wf(s),
    decreases s,
{
    if s.len() > 0 {
        assert(forall|i: int|
            0 <= i < s.drop_first().len() ==> #[trigger] s.drop_first()[i] == s[i + 1]);
        lemma_var_val_fields_wf_pointwise(s.drop_first());
    }
}

/// One `name = value;` assignment, with the position of its terminator.
#[derive(Debug)]
pub struct Variable {
    pub name: String,
    pub value: VariableValue,
    pub position: Position,
}

/// Mathematical model of a `Variable`.
pub ghost struct VariableV {
    pub name: Seq<char>,
    pub value: VarValV,
    pub position: PositionV,
}

impl View for Variable {
    type V = VariableV;

    open spec fn view(&self) -> VariableV {
        VariableV { name: self.name@, value: self.value@, position: self.position@ }
    }
}

/// An assignment stripped of its position, for comparisons in callers that
/// care about name and value alone.
#[derive(Debug, PartialEq)]
pub struct VariableWithoutPosition {
    pub name: String,
    pub value: VariableValue,
}

} // verus!
