use vstd::prelude::*;

verus! {

use crate::types::{Position, PositionV, Type, TypeV, Value, ValueV, type_v, value_v};

/// The `settings { }` block: only the values file path can be set.
#[derive(Debug, PartialEq)]
pub struct Settings {
    pub envl_file_path: Option<String>,
}

/// One declaration of the `vars { }` block: the declared type, the two
/// optional fallback values (each `Null` when absent), and the position
/// of the declaration.
#[derive(Debug, PartialEq)]
pub struct Var {
    pub v_type: Type,
    pub default_value: Value,
    pub actions_value: Value,
    pub position: Position,
}

/// Mathematical model of a `Var`.
pub ghost struct VarV {
    pub v_type: TypeV,
    pub default_value: ValueV,
    pub actions_value: ValueV,
    pub position: PositionV,
}

impl View for Var {
    type V = VarV;

    open spec fn view(&self) -> VarV {
        VarV {
            v_type: type_v(self.v_type),
            default_value: value_v(self.default_value),
            actions_value: value_v(self.actions_value),
            position: self.position@,
        }
    }
}

/// The declared variables, in declaration order, keyed by unique names.
pub type Vars = Vec<(String, Var)>;

/// A parsed schema: its settings and its variable declarations.
#[derive(Debug)]
pub struct Config {
    pub settings: Settings,
    pub vars: Vars,
}

} // verus!
