use vstd::prelude::*;

verus! {

broadcast use vstd::std_specs::vec::axiom_vec_index_decreases, vstd::std_specs::vec::axiom_vec_decreases_to_view, vstd::seq::axiom_seq_index_decreases, vstd::seq::axiom_seq_subrange_decreases;

/// A location in one of the two source texts: 1-indexed row and column,
/// together with the path the text was read from (for diagnostics).
#[derive(Debug, Clone, PartialEq, Eq)]
pub struct Position {
    pub file_path: String,
    pub row: usize,
    pub col: usize,
}

/// Mathematical model of a `Position`.
pub ghost struct PositionV {
    pub file_path: Seq<char>,
    pub row: int,
    pub col: int,
}

impl View for Position {
    type V = PositionV;

    open spec fn view(&self) -> PositionV {
        PositionV { file_path: self.file_path@, row: self.row as int, col: self.col as int }
    }
}

impl Position {
    /// An explicit deep copy whose contract says the copy models the original.
    pub fn dup(&self) -> (r: Position)
        ensures
            r@ == self@,
    {
        Position { file_path: self.file_path.clone(), row: self.row, col: self.col }
    }
}

/// A declared type: the recursive sum of the primitive kinds, arrays,
/// field-name-keyed structs, and optionals.
#[derive(Debug, PartialEq, Eq)]
pub enum Type {
    Null,
    String,
    Char,
    Float,
    Int,
    Uint,
    Bool,
    Array(Box<Type>),
    Struct(Vec<(String, Type)>),
    Option(Box<Type>),
}

/// Mathematical model of a `Type`.
pub ghost enum TypeV {
    Null,
    Str,
    Chr,
    Flt,
    Int,
    Uint,
    Bool,
    Array(Box<TypeV>),
    Struct(Seq<(Seq<char>, TypeV)>),
    Opt(Box<TypeV>),
}

/// A typed literal value. A `Float` carries the literal digits as text:
/// the pipeline validates the shape of a floating-point literal and passes
/// the text through to code generation unchanged.
#[derive(Debug, PartialEq, Eq)]
pub enum Value {
    Null,
    String(String),
    Char(char),
    Float(String),
    Int(i64),
    Uint(u64),
    Bool(bool),
    Array(Vec<Value>),
    Struct(Vec<(String, Value)>),
}

/// Mathematical model of a `Value`.
pub ghost enum ValueV {
    Null,
    Str(Seq<char>),
    Chr(char),
    Flt(Seq<char>),
    Int(i64),
    Uint(u64),
    Bool(bool),
    Array(Seq<ValueV>),
    Struct(Seq<(Seq<char>, ValueV)>),
}

/// Model of a `Type`.
pub open spec fn type_v(t: Type) -> TypeV
    decreases t,
{
    match t {
        Type::Null => TypeV::Null,
        Type::String => TypeV::Str,
        Type::Char => TypeV::Chr,
        Type::Float => TypeV::Flt,
        Type::Int => TypeV::Int,
        Type::Uint => TypeV::Uint,
        Type::Bool => TypeV::Bool,
        Type::Array(t0) => TypeV::Array(Box::new(type_v(*t0))),
        Type::Struct(fields) => TypeV::Struct(type_fields_v(fields@)),
        Type::Option(t0) => TypeV::Opt(Box::new(type_v(*t0))),
    }
}

/// Model of a struct's declared field list.
pub open spec fn type_fields_v(s: Seq<(String, Type)>) -> Seq<(Seq<char>, TypeV)>
    decreases s,
{
    if s.len() == 0 {
        Seq::empty()
    } else {
        seq![(s[0].0@, type_v(s[0].1))] + type_fields_v(s.drop_first())
    }
}

pub proof fn lemma_type_fields_v(s: Seq<(String, Type)>)
    ensures
        type_fields_v(s).len() == s.len(),
        forall|i: int|
            0 <= i < s.len() ==> #[trigger] type_fields_v(s)[i] == (s[i].0@, type_v(s[i].1)),
    decreases s,
{
    if s.len() > 0 {
        lemma_type_fields_v(s.drop_first());
    }
}

impl View for Type {
    type V = TypeV;

    open spec fn view(&self) -> TypeV {
        type_v(*self)
    }
}

pub proof fn lemma_type_fields_v_push(s: Seq<(String, Type)>, x: (String, Type))
    ensures
        type_fields_v(s.push(x)) == type_fields_v(s).push((x.0@, type_v(x.1))),
{
    lemma_type_fields_v(s.push(x));
    lemma_type_fields_v(s);
    assert(type_fields_v(s.push(x)) =~= type_fields_v(s).push((x.0@, type_v(x.1))));
}

/// Equal keys and equal element models give equal field-list models.
pub proof fn lemma_type_fields_v_congr(a: Seq<(String, Type)>, b: Seq<(String, Type)>)
    requires
        a.len() == b.len(),
        forall|k: int|
            0 <= k < a.len() ==> (#[trigger] a[k]).0@ == b[k].0@ && type_v(a[k].1) == type_v(
                b[k].1,
            ),
    ensures
        type_fields_v(a) == type_fields_v(b),
{
    lemma_type_fields_v(a);
    lemma_type_fields_v(b);
    assert(type_fields_v(a) =~= type_fields_v(b));
}

impl Type {
    /// An explicit deep copy whose contract says the copy models the
    /// original.
    pub fn dup(&self) -> (r: Type)
        ensures
            r@ == self@,
        decreases self,
    {
        match self {
            Type::Null => Type::Null,
            Type::String => Type::String,
            Type::Char => Type::Char,
            Type::Float => Type::Float,
            Type::Int => Type::Int,
            Type::Uint => Type::Uint,
            Type::Bool => Type::Bool,
            Type::Array(t0) => Type::Array(Box::new(t0.dup())),
            Type::Option(t0) => Type::Option(Box::new(t0.dup())),
            Type::Struct(fields) => {
                let mut out: Vec<(String, Type)> = Vec::new();
                let n = fields.len();
                let mut i: usize = 0;
                while i < n
                    invariant
                        *self == Type::Struct(*fields),
                        n == fields@.len(),
                        0 <= i <= n,
                        out@.len() == i,
                        forall|k: int|
                            0 <= k < i ==> (#[trigger] out@[k]).0@ == fields@[k].0@ && type_v(
                                out@[k].1,
                            ) == type_v(fields@[k].1),
                    decreases n - i,
                {
                    let name = fields[i].0.clone();
                    proof {
                        assert(decreases_to!(*self => self->Struct_0));
                        assert(self->Struct_0 == *fields);
                    }
                    let t = fields[i].1.dup();
                    out.push((name, t));
                    i += 1;
                }
                proof {
                    lemma_type_fields_v_congr(out@, fields@);
                }
                Type::Struct(out)
            },
        }
    }
}

/// Model of a `Value`.
pub open spec fn value_v(v: Value) -> ValueV
    decreases v,
{
    match v {
        Value::Null => ValueV::Null,
        Value::String(s) => ValueV::Str(s@),
        Value::Char(c) => ValueV::Chr(c),
        Value::Float(s) => ValueV::Flt(s@),
        Value::Int(i) => ValueV::Int(i),
        Value::Uint(u) => ValueV::Uint(u),
        Value::Bool(b) => ValueV::Bool(b),
        Value::Array(vs) => ValueV::Array(value_elems_v(vs@)),
        Value::Struct(fields) => ValueV::Struct(value_fields_v(fields@)),
    }
}

/// Model of an array's element list.
pub open spec fn value_elems_v(s: Seq<Value>) -> Seq<ValueV>
    decreases s,
{
    if s.len() == 0 {
        Seq::empty()
    } else {
        seq![value_v(s[0])] + value_elems_v(s.drop_first())
    }
}

/// Model of a struct literal's field list.
pub open spec fn value_fields_v(s: Seq<(String, Value)>) -> Seq<(Seq<char>, ValueV)>
    decreases s,
{
    if s.len() == 0 {
        Seq::empty()
    } else {
        seq![(s[0].0@, value_v(s[0].1))] + value_fields_v(s.drop_first())
    }
}

pub proof fn lemma_value_elems_v(s: Seq<Value>)
    ensures
        value_elems_v(s).len() == s.len(),
        forall|i: int| 0 <= i < s.len() ==> #[trigger] value_elems_v(s)[i] == value_v(s[i]),
    decreases s,
{
    if s.len() > 0 {
        lemma_value_elems_v(s.drop_first());
    }
}

pub proof fn lemma_value_fields_v(s: Seq<(String, Value)>)
    ensures
        value_fields_v(s).len() == s.len(),
        forall|i: int|
            0 <= i < s.len() ==> #[trigger] value_fields_v(s)[i] == (s[i].0@, value_v(s[i].1)),
    decreases s,
{
    if s.len() > 0 {
        lemma_value_fields_v(s.drop_first());
    }
}

impl View for Value {
    type V = ValueV;

    open spec fn view(&self) -> ValueV {
        value_v(*self)
    }
}

/// Equal element models give equal list models.
pub proof fn lemma_value_elems_v_congr(a: Seq<Value>, b: Seq<Value>)
    requires
        a.len() == b.len(),
        forall|k: int| 0 <= k < a.len() ==> value_v(#[trigger] a[k]) == value_v(b[k]),
    ensures
        value_elems_v(a) == value_elems_v(b),
{
    lemma_value_elems_v(a);
    lemma_value_elems_v(b);
    assert(value_elems_v(a) =~= value_elems_v(b));
}

/// Equal keys and equal element models give equal field-list models.
pub proof fn lemma_value_fields_v_congr(a: Seq<(String, Value)>, b: Seq<(String, Value)>)
    requires
        a.len() == b.len(),
        forall|k: int|
            0 <= k < a.len() ==> (#[trigger] a[k]).0@ == b[k].0@ && value_v(a[k].1) == value_v(
                b[k].1,
            ),
    ensures
        value_fields_v(a) == value_fields_v(b),
{
    lemma_value_fields_v(a);
    lemma_value_fields_v(b);
    assert(value_fields_v(a) =~= value_fields_v(b));
}

impl Value {
    /// An explicit deep copy whose contract says the copy models the
    /// original.
    pub fn dup(&self) -> (r: Value)
        ensures
            r@ == self@,
        decreases self,
    {
        match self {
            Value::Null => Value::Null,
            Value::String(s) => Value::String(s.clone()),
            Value::Char(c) => Value::Char(*c),
            Value::Float(s) => Value::Float(s.clone()),
            Value::Int(i) => Value::Int(*i),
            Value::Uint(u) => Value::Uint(*u),
            Value::Bool(b) => Value::Bool(*b),
            Value::Array(vs) => {
                let mut out: Vec<Value> = Vec::new();
                let n = vs.len();
                let mut i: usize = 0;
                while i < n
                    invariant
                        *self == Value::Array(*vs),
                        n == vs@.len(),
                        0 <= i <= n,
                        out@.len() == i,
                        forall|k: int|
                            0 <= k < i ==> value_v(#[trigger] out@[k]) == value_v(vs@[k]),
                    decreases n - i,
                {
                    proof {
                        assert(decreases_to!(*self => self->Array_0));
                        assert(self->Array_0 == *vs);
                    }
                    let e = vs[i].dup();
                    out.push(e);
                    i += 1;
                }
                proof {
                    lemma_value_elems_v_congr(out@, vs@);
                }
                Value::Array(out)
            },
            Value::Struct(fields) => {
                let mut out: Vec<(String, Value)> = Vec::new();
                let n = fields.len();
                let mut i: usize = 0;
                while i < n
                    invariant
                        *self == Value::Struct(*fields),
                        n == fields@.len(),
                        0 <= i <= n,
                        out@.len() == i,
                        forall|k: int|
                            0 <= k < i ==> (#[trigger] out@[k]).0@ == fields@[k].0@ && value_v(
                                out@[k].1,
                            ) == value_v(fields@[k].1),
                    decreases n - i,
                {
                    proof {
                        assert(decreases_to!(*self => self->Struct_0));
                        assert(self->Struct_0 == *fields);
                    }
                    let name = fields[i].0.clone();
                    let v = fields[i].1.dup();
                    out.push((name, v));
                    i += 1;
                }
                proof {
                    lemma_value_fields_v_congr(out@, fields@);
                }
                Value::Struct(out)
            },
        }
    }
}

pub proof fn lemma_value_elems_v_push(s: Seq<Value>, x: Value)
    ensures
        value_elems_v(s.push(x)) == value_elems_v(s).push(value_v(x)),
{
    lemma_value_elems_v(s.push(x));
    lemma_value_elems_v(s);
    assert(value_elems_v(s.push(x)) =~= value_elems_v(s).push(value_v(x)));
}

pub proof fn lemma_value_fields_v_push(s: Seq<(String, Value)>, x: (String, Value))
    ensures
        value_fields_v(s.push(x)) == value_fields_v(s).push((x.0@, value_v(x.1))),
{
    lemma_value_fields_v(s.push(x));
    lemma_value_fields_v(s);
    assert(value_fields_v(s.push(x)) =~= value_fields_v(s).push((x.0@, value_v(x.1))));
}

/// Struct field names are unique at every nesting level of a type.
pub open spec fn type_wf(t: TypeV) -> bool
    decreases t,
{
    match t {
        TypeV::Array(t0) => type_wf(*t0),
        TypeV::Opt(t0) => type_wf(*t0),
        TypeV::Struct(fs) => unique_keys(fs) && type_fields_wf(fs),
        _ => true,
    }
}

pub open spec fn type_fields_wf(fs: Seq<(Seq<char>, TypeV)>) -> bool
    decreases fs,
{
    if fs.len() == 0 {
        true
    } else {
        type_wf(fs[0].1) && type_fields_wf(fs.drop_first())
    }
}

pub proof fn lemma_type_fields_wf_pointwise(s: Seq<(Seq<char>, TypeV)>)
    requires
        forall|i: int| 0 <= i < s.len() ==> type_wf(#[trigger] s[i].1),
    ensures
        type_fields_wf(s),
    decreases s,
{
    if s.len() > 0 {
        assert(forall|i: int|
            0 <= i < s.drop_first().len() ==> #[trigger] s.drop_first()[i] == s[i + 1]);
        lemma_type_fields_wf_pointwise(s.drop_first());
    }
}

pub proof fn lemma_type_fields_wf_index(s: Seq<(Seq<char>, TypeV)>)
    requires
        type_fields_wf(s),
    ensures
        forall|i: int| 0 <= i < s.len() ==> type_wf(#[trigger] s[i].1),
    decreases s,
{
    if s.len() > 0 {
        lemma_type_fields_wf_index(s.drop_first());
        assert forall|i: int| 0 <= i < s.len() implies type_wf(#[trigger] s[i].1) by {
            if i == 0 {
                assert(type_wf(s[0].1));
            } else {
                assert(s.drop_first()[i - 1] == s[i]);
                assert(type_wf(s.drop_first()[i - 1].1));
            }
        };
    }
}

/// Struct keys are unique at every nesting level of a value.
pub open spec fn value_wf(v: ValueV) -> bool
    decreases v,
{
    match v {
        ValueV::Array(vs) => value_elems_wf(vs),
        ValueV::Struct(fs) => unique_keys(fs) && value_fields_wf(fs),
        _ => true,
    }
}

pub open spec fn value_elems_wf(s: Seq<ValueV>) -> bool
    decreases s,
{
    if s.len() == 0 {
        true
    } else {
        value_wf(s[0]) && value_elems_wf(s.drop_first())
    }
}

pub open spec fn value_fields_wf(s: Seq<(Seq<char>, ValueV)>) -> bool
    decreases s,
{
    if s.len() == 0 {
        true
    } else {
        value_wf(s[0].1) && value_fields_wf(s.drop_first())
    }
}

pub proof fn lemma_value_elems_wf_pointwise(s: Seq<ValueV>)
    requires
        forall|i: int| 0 <= i < s.len() ==> value_wf(#[trigger] s[i]),
    ensures
        value_elems_wf(s),
    decreases s,
{
    if s.len() > 0 {
        assert(forall|i: int|
            0 <= i < s.drop_first().len() ==> #[trigger] s.drop_first()[i] == s[i + 1]);
        lemma_value_elems_wf_pointwise(s.drop_first());
    }
}

pub proof fn lemma_value_fields_wf_pointwise(s: Seq<(Seq<char>, ValueV)>)
    requires
        forall|i: int| 0 <= i < s.len() ==> value_wf(#[trigger] s[i].1),
    ensures
        value_fields_wf(s),
    decreases s,
{
    if s.len() > 0 {
        assert(forall|i: int|
            0 <= i < s.drop_first().len() ==> #[trigger] s.drop_first()[i] == s[i + 1]);
        lemma_value_fields_wf_pointwise(s.drop_first());
    }
}

/// First-match lookup in a sequence of key/value pairs.
pub open spec fn assoc_get<T>(s: Seq<(Seq<char>, T)>, k: Seq<char>) -> Option<T>
    decreases s.len(),
{
    if s.len() == 0 {
        Option::None
    } else if s[0].0 == k {
        Option::Some(s[0].1)
    } else {
        assoc_get(s.drop_first(), k)
    }
}

pub open spec fn assoc_has<T>(s: Seq<(Seq<char>, T)>, k: Seq<char>) -> bool {
    assoc_get(s, k) is Some
}

/// No two pairs share a key.
pub open spec fn unique_keys<T>(s: Seq<(Seq<char>, T)>) -> bool {
    forall|i: int, j: int| 0 <= i < j < s.len() ==> s[i].0 != s[j].0
}

/// The model of an association vector with `String` keys.
pub open spec fn assoc_view<T: View>(s: Seq<(String, T)>) -> Seq<(Seq<char>, T::V)> {
    s.map(|i: int, p: (String, T)| (p.0@, p.1@))
}

pub proof fn lemma_assoc_get_some<T>(s: Seq<(Seq<char>, T)>, k: Seq<char>, i: int)
    requires
        0 <= i < s.len(),
        s[i].0 == k,
        forall|j: int| 0 <= j < i ==> s[j].0 != k,
    ensures
        assoc_get(s, k) == Option::Some(s[i].1),
    decreases s.len(),
{
    if i == 0 {
    } else {
        lemma_assoc_get_some(s.drop_first(), k, i - 1);
    }
}

pub proof fn lemma_assoc_get_none<T>(s: Seq<(Seq<char>, T)>, k: Seq<char>)
    requires
        forall|j: int| 0 <= j < s.len() ==> s[j].0 != k,
    ensures
        assoc_get(s, k) is None,
    decreases s.len(),
{
    if s.len() > 0 {
        lemma_assoc_get_none(s.drop_first(), k);
    }
}

/// Index of the first pair holding key `name`, if any.
pub fn assoc_find_idx<T>(v: &Vec<(String, T)>, name: &String) -> (r: Option<usize>)
    ensures
        match r {
            Option::Some(i) => 0 <= i < v@.len() && v@[i as int].0@ == name@ && (forall|j: int|
                0 <= j < i ==> v@[j].0@ != name@),
            Option::None => forall|j: int| 0 <= j < v@.len() ==> v@[j].0@ != name@,
        },
{
    let n = v.len();
    let mut i: usize = 0;
    while i < n
        invariant
            n == v@.len(),
            0 <= i <= n,
            forall|j: int| 0 <= j < i ==> v@[j].0@ != name@,
        decreases n - i,
    {
        if v[i].0 == *name {
            return Some(i);
        }
        i += 1;
    }
    None
}

} // verus!
