//! Type tags of values and declared variables.
use vstd::prelude::*;

use crate::constant::{ConstV, Constant};
use crate::expr::{Expr, ExprV, VarName};

verus! {

/// The type of a constant.
#[derive(Debug, Clone, Copy, PartialEq, Eq, Structural)]
pub enum ConstType {
    Bool,
    Int,
    Float,
    Char,
    String,
}

/// The type a variable is declared with.
#[derive(Debug, Clone, Copy, PartialEq, Eq, Structural)]
pub enum VarType {
    Bool,
    Int,
    Float,
    Char,
    String,
}

/// Why an expression has no declared type.
#[derive(Debug, Clone, Copy, PartialEq, Eq, Structural)]
pub enum FromValueError {
    UnknownType,
}

pub open spec fn const_type(c: ConstV) -> ConstType {
    match c {
        ConstV::Int(_) => ConstType::Int,
        ConstV::Float(_) => ConstType::Float,
        ConstV::Boolean(_) => ConstType::Bool,
        ConstV::Char(_) => ConstType::Char,
        ConstV::Str(_) => ConstType::String,
    }
}

pub open spec fn var_type_of(e: ExprV) -> Result<VarType, FromValueError> {
    match e {
        ExprV::Const(ConstV::Int(_)) => Ok(VarType::Int),
        ExprV::Const(ConstV::Float(_)) => Ok(VarType::Float),
        ExprV::Const(ConstV::Boolean(_)) => Ok(VarType::Bool),
        ExprV::Const(ConstV::Char(_)) => Ok(VarType::Char),
        ExprV::Const(ConstV::Str(_)) => Ok(VarType::String),
        _ => Err(FromValueError::UnknownType),
    }
}

impl ConstType {
    /// The type of a constant.
    pub fn of_constant(c: &Constant) -> (r: ConstType)
        ensures
            r == const_type(c@),
    {
        match c {
            Constant::Int(_) => ConstType::Int,
            Constant::Float(_) => ConstType::Float,
            Constant::Boolean(_) => ConstType::Bool,
            Constant::Char(_) => ConstType::Char,
            Constant::String(_) => ConstType::String,
        }
    }
}

impl VarType {
    /// The type of a constant expression; any other expression has none.
    pub fn try_from_expr(e: &Expr) -> (r: Result<VarType, FromValueError>)
        ensures
            r == var_type_of(e@),
    {
        match e {
            Expr::Const(Constant::Int(_)) => Ok(VarType::Int),
            Expr::Const(Constant::Float(_)) => Ok(VarType::Float),
            Expr::Const(Constant::Boolean(_)) => Ok(VarType::Bool),
            Expr::Const(Constant::Char(_)) => Ok(VarType::Char),
            Expr::Const(Constant::String(_)) => Ok(VarType::String),
            _ => Err(FromValueError::UnknownType),
        }
    }
}

/// A declared variable: its name and its constant type.
#[derive(Debug, Clone, PartialEq)]
pub struct VariableWithType {
    name: VarName,
    its_type: ConstType,
}

impl VariableWithType {
    pub closed spec fn spec_name(&self) -> Seq<char> {
        self.name@
    }

    pub closed spec fn spec_type(&self) -> ConstType {
        self.its_type
    }

    pub fn new(name: VarName, its_type: ConstType) -> (r: VariableWithType)
        ensures
            r.spec_name() == name@,
            r.spec_type() == its_type,
    {
        VariableWithType { name, its_type }
    }

    /// The variable's name.
    pub fn name(&self) -> (r: &VarName)
        ensures
            r@ == self.spec_name(),
    {
        &self.name
    }

    /// The variable's type.
    pub fn its_type(&self) -> (r: ConstType)
        ensures
            r == self.spec_type(),
    {
        self.its_type
    }
}

/// A declared variable: its name and its declared type.
#[derive(Debug, Clone, PartialEq)]
pub struct Variable {
    name: VarName,
    its_type: VarType,
}

impl Variable {
    pub closed spec fn spec_name(&self) -> Seq<char> {
        self.name@
    }

    pub closed spec fn spec_type(&self) -> VarType {
        self.its_type
    }

    pub fn new(name: VarName, its_type: VarType) -> (r: Variable)
        ensures
            r.spec_name() == name@,
            r.spec_type() == its_type,
    {
        Variable { name, its_type }
    }

    /// The variable's name.
    pub fn name(&self) -> (r: &VarName)
        ensures
            r@ == self.spec_name(),
    {
        &self.name
    }

    /// The variable's type.
    pub fn its_type(&self) -> (r: &VarType)
        ensures
            *r == self.spec_type(),
    {
        &self.its_type
    }
}

} // verus!
